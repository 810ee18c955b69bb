//! The text of the command bar: each configured component in its color and
//! style, then the prompt symbol. The escape sequences come from termion.
use vstd::prelude::*;
use crate::config::{
    ColorName, CommandBarComponents, CommandBarConfig, Component, Prompt, StyleName,
};
use crate::text::{same_text, trim_end, trim_end_str};
use crate::tokenizer::views;

verus! {

/// Relies on termion's `color::Red::fg_str`: `ESC [38;5;1m`.
#[verifier::external_body]
fn fg_red() -> (r: &'static str)
    ensures
        r@ == "\x1b[38;5;1m"@,
{
    termion::color::Red.fg_str()
}

/// Relies on termion's `color::Green::fg_str`: `ESC [38;5;2m`.
#[verifier::external_body]
fn fg_green() -> (r: &'static str)
    ensures
        r@ == "\x1b[38;5;2m"@,
{
    termion::color::Green.fg_str()
}

/// Relies on termion's `color::Yellow::fg_str`: `ESC [38;5;3m`.
#[verifier::external_body]
fn fg_yellow() -> (r: &'static str)
    ensures
        r@ == "\x1b[38;5;3m"@,
{
    termion::color::Yellow.fg_str()
}

/// Relies on termion's `color::Blue::fg_str`: `ESC [38;5;4m`.
#[verifier::external_body]
fn fg_blue() -> (r: &'static str)
    ensures
        r@ == "\x1b[38;5;4m"@,
{
    termion::color::Blue.fg_str()
}

/// Relies on termion's `color::White::fg_str`: `ESC [38;5;7m`.
#[verifier::external_body]
fn fg_white() -> (r: &'static str)
    ensures
        r@ == "\x1b[38;5;7m"@,
{
    termion::color::White.fg_str()
}

/// Relies on the `Display` of termion's `style::Bold`: `ESC [1m`.
#[verifier::external_body]
fn bold_text() -> (r: String)
    ensures
        r@ == "\x1b[1m"@,
{
    format!("{}", termion::style::Bold)
}

/// Relies on the `Display` of termion's `style::Italic`: `ESC [3m`.
#[verifier::external_body]
fn italic_text() -> (r: String)
    ensures
        r@ == "\x1b[3m"@,
{
    format!("{}", termion::style::Italic)
}

/// Relies on the `Display` of termion's `style::Reset`: `ESC [m`.
#[verifier::external_body]
fn reset_text() -> (r: String)
    ensures
        r@ == "\x1b[m"@,
{
    format!("{}", termion::style::Reset)
}

/// The escape sequence that sets a color; black is shown as blue.
pub open spec fn fg_code(c: ColorName) -> Seq<char> {
    match c {
        ColorName::RED => "\x1b[38;5;1m"@,
        ColorName::GREEN => "\x1b[38;5;2m"@,
        ColorName::YELLOW => "\x1b[38;5;3m"@,
        ColorName::WHITE => "\x1b[38;5;7m"@,
        ColorName::BLUE | ColorName::BLACK => "\x1b[38;5;4m"@,
    }
}

/// The escape sequence that sets a style; none for the normal style.
pub open spec fn style_code(s: StyleName) -> Seq<char> {
    match s {
        StyleName::BOLD => "\x1b[1m"@,
        StyleName::ITALIC => "\x1b[3m"@,
        StyleName::NORMAL => seq![],
    }
}

fn fg_escape(c: ColorName) -> (r: &'static str)
    ensures
        r@ == fg_code(c),
{
    match c {
        ColorName::RED => fg_red(),
        ColorName::GREEN => fg_green(),
        ColorName::YELLOW => fg_yellow(),
        ColorName::WHITE => fg_white(),
        ColorName::BLUE | ColorName::BLACK => fg_blue(),
    }
}

/// Appends the escape sequence of a color.
pub fn push_color(vec: &mut Vec<String>, color_name: &ColorName)
    ensures
        views(final(vec)@) == views(old(vec)@).push(fg_code(*color_name)),
{
    let code = fg_escape(*color_name).to_string();
    proof {
        assert(views(vec@.push(code)) =~= views(vec@).push(code@));
    }
    vec.push(code);
}

/// Appends the escape sequence of a style; nothing for the normal style.
pub fn push_style(vec: &mut Vec<String>, style_name: &StyleName)
    ensures
        *style_name == StyleName::NORMAL ==> views(final(vec)@) == views(old(vec)@),
        *style_name != StyleName::NORMAL ==> views(final(vec)@) == views(old(vec)@).push(
            style_code(*style_name),
        ),
{
    let code = match style_name {
        StyleName::BOLD => bold_text(),
        StyleName::ITALIC => italic_text(),
        StyleName::NORMAL => {
            return ;
        },
    };
    proof {
        assert(views(vec@.push(code)) =~= views(vec@).push(code@));
    }
    vec.push(code);
}

/// What a component shows: the working directory, the branch without
/// trailing white space, the user, or nothing.
pub open spec fn content_of(
    kind: CommandBarComponents,
    cwd: Seq<char>,
    branch: Seq<char>,
    user: Seq<char>,
) -> Seq<char> {
    match kind {
        CommandBarComponents::CWD => cwd,
        CommandBarComponents::SVN => trim_end(branch),
        CommandBarComponents::USER => user,
        _ => seq![],
    }
}

/// The text of one component.
pub open spec fn component_text(c: Component, cwd: Seq<char>, branch: Seq<char>, user: Seq<char>) -> Seq<
    char,
> {
    fg_code(c.color.color_name) + c.sorround.left@ + content_of(c.component_type, cwd, branch, user)
        + c.sorround.right@ + " "@ + style_code(c.style.style_name) + "\x1b[m"@
}

/// The text of the prompt symbol.
pub open spec fn prompt_text(p: Prompt) -> Seq<char> {
    fg_code(p.color.color_name) + p.sorround.left@ + p.symbol@ + p.sorround.right@ + " "@
        + style_code(p.style.style_name) + "\x1b[m"@
}

/// The text of the components, in order.
pub open spec fn components_text(
    cs: Seq<Component>,
    cwd: Seq<char>,
    branch: Seq<char>,
    user: Seq<char>,
) -> Seq<char>
    decreases cs.len(),
{
    if cs.len() == 0 {
        seq![]
    } else {
        components_text(cs.drop_last(), cwd, branch, user) + component_text(
            cs.last(),
            cwd,
            branch,
            user,
        )
    }
}

fn append_look(out: &mut String, color: ColorName, left: &String)
    ensures
        final(out)@ == old(out)@ + fg_code(color) + left@,
{
    out.append(fg_escape(color));
    out.append(left.as_str());
}

fn append_tail(out: &mut String, right: &String, style: StyleName)
    ensures
        final(out)@ == old(out)@ + right@ + " "@ + style_code(style) + "\x1b[m"@,
{
    let ghost start = out@;
    out.append(right.as_str());
    out.append(" ");
    let ghost mid = out@;
    match style {
        StyleName::BOLD => {
            let code = bold_text();
            out.append(code.as_str());
        },
        StyleName::ITALIC => {
            let code = italic_text();
            out.append(code.as_str());
        },
        StyleName::NORMAL => {},
    }
    proof {
        assert(out@ =~= mid + style_code(style));
    }
    let reset = reset_text();
    out.append(reset.as_str());
    proof {
        assert(out@ =~= start + right@ + " "@ + style_code(style) + "\x1b[m"@);
    }
}

/// The command bar: every component, then the prompt symbol.
pub fn build_cmd_bar(config: &CommandBarConfig, cwd: &str, branch: &str, user: &str) -> (r: String)
    ensures
        r@ == components_text(config.components@, cwd@, branch@, user@) + prompt_text(config.prompt),
{
    let mut out = String::new();
    let branch_label = trim_end_str(branch);
    let mut k: usize = 0;
    while k < config.components.len()
        invariant
            0 <= k <= config.components@.len(),
            branch_label@ == trim_end(branch@),
            out@ == components_text(config.components@.take(k as int), cwd@, branch@, user@),
        decreases config.components@.len() - k,
    {
        let c = &config.components[k];
        proof {
            assert(config.components@.take(k + 1).drop_last() =~= config.components@.take(k as int));
        }
        append_look(&mut out, c.color.color_name, &c.sorround.left);
        match c.component_type {
            CommandBarComponents::CWD => out.append(cwd),
            CommandBarComponents::SVN => out.append(branch_label.as_str()),
            CommandBarComponents::USER => out.append(user),
            _ => {
                proof {
                    assert(out@ + seq![] =~= out@);
                }
            },
        }
        append_tail(&mut out, &c.sorround.right, c.style.style_name);
        proof {
            let t = config.components@.take(k as int);
            assert(out@ =~= components_text(t, cwd@, branch@, user@) + component_text(
                *c,
                cwd@,
                branch@,
                user@,
            ));
        }
        k = k + 1;
    }
    proof {
        assert(config.components@.take(k as int) =~= config.components@);
    }
    let p = &config.prompt;
    append_look(&mut out, p.color.color_name, &p.sorround.left);
    out.append(p.symbol.as_str());
    append_tail(&mut out, &p.sorround.right, p.style.style_name);
    proof {
        assert(out@ =~= components_text(config.components@, cwd@, branch@, user@) + prompt_text(
            *p,
        ));
    }
    out
}

/// The version-control part of the command bar.
pub struct GitCli {}

impl GitCli {
    /// The branch without trailing white space, followed by an arrow and the
    /// number of commits not yet upstream unless that number is `0`.
    pub fn compose_git_component(branch: &str, upstream: &str) -> (r: String)
        ensures
            r@ == trim_end(branch@) + if upstream@ == "0"@ {
                seq![]
            } else {
                " \u{21e1}"@ + upstream@
            },
    {
        let mut r = trim_end_str(branch);
        if !same_text(upstream, "0") {
            r.append(" \u{21e1}");
            r.append(upstream);
        } else {
            proof {
                assert(r@ + seq![] =~= r@);
            }
        }
        r
    }
}

} // verus!
