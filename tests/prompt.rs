use civa::config::{
    config_builder, Color, ColorName, CommandBarComponents, CommandBarConfig, Component,
    ComponentEntry, Sorround, Style, StyleName,
};
use civa::prompt::{build_cmd_bar, push_color, GitCli};

#[test]
fn push_color_blue() {
    let mut vec: Vec<String> = Vec::new();

    push_color(&mut vec, &ColorName::BLUE);

    assert_eq!(vec.len(), 1);
    assert_eq!(vec.first().unwrap(), "\u{1b}[38;5;4m");
}

#[test]
fn push_color_yellow() {
    let mut vec: Vec<String> = Vec::new();

    push_color(&mut vec, &ColorName::YELLOW);

    assert_eq!(vec.len(), 1);
    assert_eq!(vec.first().unwrap(), "\u{1b}[38;5;3m");
}

#[test]
fn push_color_red() {
    let mut vec: Vec<String> = Vec::new();

    push_color(&mut vec, &ColorName::RED);

    assert_eq!(vec.len(), 1);
    assert_eq!(vec.first().unwrap(), "\u{1b}[38;5;1m");
}

#[test]
fn push_color_green() {
    let mut vec: Vec<String> = Vec::new();

    push_color(&mut vec, &ColorName::GREEN);

    assert_eq!(vec.len(), 1);
    assert_eq!(vec.first().unwrap(), "\u{1b}[38;5;2m");
}

#[test]
fn push_style() {
    let mut vec: Vec<String> = Vec::new();

    civa::prompt::push_style(&mut vec, &StyleName::NORMAL);
    civa::prompt::push_style(&mut vec, &StyleName::BOLD);
    civa::prompt::push_style(&mut vec, &StyleName::ITALIC);

    assert_eq!(vec!["\u{1b}[1m", "\u{1b}[3m"], vec);
}

#[test]
fn push_color_black_and_white() {
    let mut vec: Vec<String> = Vec::new();
    push_color(&mut vec, &ColorName::BLACK);
    push_color(&mut vec, &ColorName::WHITE);
    civa::prompt::push_style(&mut vec, &StyleName::NORMAL);
    assert_eq!(vec, vec!["\u{1b}[38;5;4m", "\u{1b}[38;5;7m"]);
}

#[test]
fn names_in_any_case() {
    assert_eq!(Color::from_string("ReD").color_name, ColorName::RED);
    assert_eq!(Color::from_string("GREEN").color_name, ColorName::GREEN);
    assert_eq!(Color::from_string("purple").color_name, ColorName::WHITE);
    assert_eq!(Color::from_lowercase("Blue").color_name, ColorName::WHITE);
    assert_eq!(Style::from_string("Bold").style_name, StyleName::BOLD);
    assert_eq!(Style::from_string("ITALIC").style_name, StyleName::ITALIC);
    assert_eq!(Style::from_string("wavy").style_name, StyleName::NORMAL);
    let c = Component::from_string("Cwd", Color::default(), Style::default(), Sorround::default());
    assert_eq!(c.component_type, CommandBarComponents::CWD);
    let u = Component::from_string("clock", Color::default(), Style::default(), Sorround::default());
    assert_eq!(u.component_type, CommandBarComponents::UNDEFINED);
}

#[test]
fn default_command_bar() {
    let config = CommandBarConfig::default();
    let kinds: Vec<CommandBarComponents> =
        config.components.iter().map(|c| c.component_type).collect();
    assert_eq!(
        kinds,
        vec![CommandBarComponents::CWD, CommandBarComponents::SVN, CommandBarComponents::PROMPT]
    );
    assert_eq!(config.prompt.symbol, ">");
}

#[test]
fn command_bar_text() {
    let entries = vec![
        ComponentEntry {
            name: String::from("cwd"),
            color: Some(String::from("Red")),
            style: Some(String::from("bold")),
            left: Some(String::from("[")),
            right: Some(String::from("]")),
        },
        ComponentEntry {
            name: String::from("svn"),
            color: None,
            style: None,
            left: None,
            right: None,
        },
    ];
    let config = config_builder(&entries);
    assert_eq!(config.components.len(), 2);
    assert_eq!(config.components[0].color.color_name, ColorName::RED);
    assert_eq!(config.components[1].style.style_name, StyleName::NORMAL);
    let bar = build_cmd_bar(&config, "/home/u", "main\n", "u");
    assert_eq!(
        bar,
        "\u{1b}[38;5;1m[/home/u] \u{1b}[1m\u{1b}[m\u{1b}[38;5;7mmain \u{1b}[m\u{1b}[38;5;7m> \u{1b}[m"
    );
}

#[test]
fn git_component() {
    assert_eq!(GitCli::compose_git_component("master\n", "0"), "master");
    assert_eq!(GitCli::compose_git_component("dev\n", "2"), "dev \u{21e1}2");
}
