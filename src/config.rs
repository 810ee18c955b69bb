//! The configuration of the command bar: which components it shows, in what
//! order, and with which color, style and surrounding text.
use vstd::prelude::*;
use crate::text::same_text;

verus! {

/// What `str::to_lowercase` makes of a text.
pub uninterp spec fn lower_of(s: Seq<char>) -> Seq<char>;

/// Relies on `str::to_lowercase`: the lowercase form of a text, which
/// depends on its characters alone.
#[verifier::external_body]
fn lowercase(s: &str) -> (r: String)
    ensures
        r@ == lower_of(s@),
{
    s.to_lowercase()
}

#[derive(Debug, Clone, Copy, PartialEq, Eq, Structural)]
pub enum ColorName {
    RED,
    BLUE,
    YELLOW,
    BLACK,
    WHITE,
    GREEN,
}

#[derive(Debug, Clone, Copy, PartialEq, Eq, Structural)]
pub enum StyleName {
    BOLD,
    NORMAL,
    ITALIC,
}

#[derive(Debug, Clone, Copy, PartialEq, Eq, Structural)]
pub struct Style {
    pub style_name: StyleName,
}

#[derive(Debug, Clone, Copy, PartialEq, Eq, Structural)]
pub struct Color {
    pub color_name: ColorName,
}

/// The style that a lowercase name selects; normal for any other name.
pub open spec fn style_named(name: Seq<char>) -> StyleName {
    if name == "bold"@ {
        StyleName::BOLD
    } else if name == "italic"@ {
        StyleName::ITALIC
    } else {
        StyleName::NORMAL
    }
}

/// The color that a lowercase name selects; white for any other name.
pub open spec fn color_named(name: Seq<char>) -> ColorName {
    if name == "red"@ {
        ColorName::RED
    } else if name == "blue"@ {
        ColorName::BLUE
    } else if name == "yellow"@ {
        ColorName::YELLOW
    } else if name == "black"@ {
        ColorName::BLACK
    } else if name == "green"@ {
        ColorName::GREEN
    } else {
        ColorName::WHITE
    }
}

impl Style {
    /// The normal style.
    pub fn default() -> (r: Style)
        ensures
            r.style_name == StyleName::NORMAL,
    {
        Style { style_name: StyleName::NORMAL }
    }

    /// The style of a name already in lowercase.
    pub fn from_lowercase(style_name: &str) -> (r: Style)
        ensures
            r.style_name == style_named(style_name@),
    {
        let style = if same_text(style_name, "bold") {
            StyleName::BOLD
        } else if same_text(style_name, "italic") {
            StyleName::ITALIC
        } else {
            StyleName::NORMAL
        };
        Style { style_name: style }
    }

    /// The style of a name, in any case.
    pub fn from_string(style_name: &str) -> (r: Style)
        ensures
            r.style_name == style_named(lower_of(style_name@)),
    {
        let lower = lowercase(style_name);
        Style::from_lowercase(lower.as_str())
    }
}

impl Color {
    /// White.
    pub fn default() -> (r: Color)
        ensures
            r.color_name == ColorName::WHITE,
    {
        Color { color_name: ColorName::WHITE }
    }

    /// The color of a name already in lowercase.
    pub fn from_lowercase(color_name: &str) -> (r: Color)
        ensures
            r.color_name == color_named(color_name@),
    {
        let color = if same_text(color_name, "red") {
            ColorName::RED
        } else if same_text(color_name, "blue") {
            ColorName::BLUE
        } else if same_text(color_name, "yellow") {
            ColorName::YELLOW
        } else if same_text(color_name, "black") {
            ColorName::BLACK
        } else if same_text(color_name, "green") {
            ColorName::GREEN
        } else {
            ColorName::WHITE
        };
        Color { color_name: color }
    }

    /// The color of a name, in any case.
    pub fn from_string(color_name: &str) -> (r: Color)
        ensures
            r.color_name == color_named(lower_of(color_name@)),
    {
        let lower = lowercase(color_name);
        Color::from_lowercase(lower.as_str())
    }
}

/// The kinds of component that the command bar shows.
#[derive(Debug, Clone, Copy, PartialEq, Eq, Structural)]
pub enum CommandBarComponents {
    CWD,
    SVN,
    PROMPT,
    USER,
    UNDEFINED,
}

/// The text shown left and right of a component.
#[derive(Debug)]
pub struct Sorround {
    pub left: String,
    pub right: String,
}

impl Sorround {
    /// Nothing on either side.
    pub fn default() -> (r: Sorround)
        ensures
            r.left@.len() == 0,
            r.right@.len() == 0,
    {
        Sorround { left: String::new(), right: String::new() }
    }

    pub fn new(left: &str, right: &str) -> (r: Sorround)
        ensures
            r.left@ == left@,
            r.right@ == right@,
    {
        Sorround { left: left.to_string(), right: right.to_string() }
    }
}

/// One component of the command bar.
#[derive(Debug)]
pub struct Component {
    pub color: Color,
    pub style: Style,
    pub sorround: Sorround,
    pub component_type: CommandBarComponents,
}

/// The kind of component that a lowercase name selects.
pub open spec fn component_named(name: Seq<char>) -> CommandBarComponents {
    if name == "cwd"@ {
        CommandBarComponents::CWD
    } else if name == "svn"@ {
        CommandBarComponents::SVN
    } else if name == "prompt"@ {
        CommandBarComponents::PROMPT
    } else if name == "user"@ {
        CommandBarComponents::USER
    } else {
        CommandBarComponents::UNDEFINED
    }
}

fn component_of_lowercase(name: &str) -> (r: CommandBarComponents)
    ensures
        r == component_named(name@),
{
    if same_text(name, "cwd") {
        CommandBarComponents::CWD
    } else if same_text(name, "svn") {
        CommandBarComponents::SVN
    } else if same_text(name, "prompt") {
        CommandBarComponents::PROMPT
    } else if same_text(name, "user") {
        CommandBarComponents::USER
    } else {
        CommandBarComponents::UNDEFINED
    }
}

impl Component {
    /// The component of a name, in any case, with its look.
    pub fn from_string(component_name: &str, color: Color, style: Style, sorround: Sorround) -> (r:
        Component)
        ensures
            r.component_type == component_named(lower_of(component_name@)),
            r.color == color,
            r.style == style,
            r.sorround == sorround,
    {
        let lower = lowercase(component_name);
        let comp = component_of_lowercase(lower.as_str());
        Component { component_type: comp, color, style, sorround }
    }

    /// A component of the given kind, white and normal, with nothing around.
    pub fn default(component: CommandBarComponents) -> (r: Component)
        ensures
            r.component_type == component,
            r.color.color_name == ColorName::WHITE,
            r.style.style_name == StyleName::NORMAL,
            r.sorround.left@.len() == 0,
            r.sorround.right@.len() == 0,
    {
        Component {
            color: Color::default(),
            style: Style::default(),
            component_type: component,
            sorround: Sorround::default(),
        }
    }
}

/// The prompt symbol at the end of the command bar, with its look.
#[derive(Debug)]
pub struct Prompt {
    pub symbol: String,
    pub style: Style,
    pub color: Color,
    pub sorround: Sorround,
}

impl Prompt {
    /// `>`, white and normal, with nothing around.
    pub fn default() -> (r: Prompt)
        ensures
            r.symbol@ == ">"@,
            r.style.style_name == StyleName::NORMAL,
            r.color.color_name == ColorName::WHITE,
            r.sorround.left@.len() == 0,
            r.sorround.right@.len() == 0,
    {
        Prompt {
            symbol: String::from_str(">"),
            style: Style::default(),
            color: Color::default(),
            sorround: Sorround::default(),
        }
    }
}

/// The whole command bar.
#[derive(Debug)]
pub struct CommandBarConfig {
    pub components: Vec<Component>,
    pub prompt: Prompt,
}

impl CommandBarConfig {
    /// The working directory, the branch and the prompt, then the default
    /// prompt symbol.
    pub fn default() -> (r: CommandBarConfig)
        ensures
            r.components@.len() == 3,
            r.components@[0].component_type == CommandBarComponents::CWD,
            r.components@[1].component_type == CommandBarComponents::SVN,
            r.components@[2].component_type == CommandBarComponents::PROMPT,
            r.prompt.symbol@ == ">"@,
    {
        let mut components: Vec<Component> = Vec::new();
        components.push(Component::default(CommandBarComponents::CWD));
        components.push(Component::default(CommandBarComponents::SVN));
        components.push(Component::default(CommandBarComponents::PROMPT));
        CommandBarConfig { components, prompt: Prompt::default() }
    }
}

/// One component as a configuration file names it: its name, and the
/// settings that are given.
pub struct ComponentEntry {
    pub name: String,
    pub color: Option<String>,
    pub style: Option<String>,
    pub left: Option<String>,
    pub right: Option<String>,
}

/// The text of an optional setting, empty where it is not given.
pub open spec fn or_empty(s: Option<String>) -> Seq<char> {
    match s {
        Some(t) => t@,
        None => seq![],
    }
}

/// The component that an entry configures: missing colors and styles take
/// their defaults, missing surrounding text is empty.
pub open spec fn configured(c: Component, e: ComponentEntry) -> bool {
    &&& c.component_type == component_named(lower_of(e.name@))
    &&& c.color.color_name == match e.color {
        Some(n) => color_named(lower_of(n@)),
        None => ColorName::WHITE,
    }
    &&& c.style.style_name == match e.style {
        Some(n) => style_named(lower_of(n@)),
        None => StyleName::NORMAL,
    }
    &&& c.sorround.left@ == or_empty(e.left)
    &&& c.sorround.right@ == or_empty(e.right)
}

fn text_or_empty(s: &Option<String>) -> (r: String)
    ensures
        r@ == or_empty(*s),
{
    match s {
        Some(t) => t.clone(),
        None => String::new(),
    }
}

/// The command bar of the configured components, in the order given, with
/// the default prompt symbol.
pub fn config_builder(entries: &Vec<ComponentEntry>) -> (r: CommandBarConfig)
    ensures
        r.components@.len() == entries@.len(),
        forall|k: int|
            0 <= k < entries@.len() ==> configured(#[trigger] r.components@[k], entries@[k]),
        r.prompt.symbol@ == ">"@,
{
    let mut components: Vec<Component> = Vec::new();
    let mut k: usize = 0;
    while k < entries.len()
        invariant
            0 <= k <= entries@.len(),
            components@.len() == k,
            forall|j: int| 0 <= j < k ==> configured(#[trigger] components@[j], entries@[j]),
        decreases entries@.len() - k,
    {
        let e = &entries[k];
        let color = match &e.color {
            Some(n) => Color::from_string(n.as_str()),
            None => Color::default(),
        };
        let style = match &e.style {
            Some(n) => Style::from_string(n.as_str()),
            None => Style::default(),
        };
        let left = text_or_empty(&e.left);
        let right = text_or_empty(&e.right);
        let sorround = Sorround::new(left.as_str(), right.as_str());
        components.push(Component::from_string(e.name.as_str(), color, style, sorround));
        k = k + 1;
    }
    CommandBarConfig { components, prompt: Prompt::default() }
}

} // verus!
