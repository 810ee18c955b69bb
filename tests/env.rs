use civa::env::{split_var_string, EnvManager};
use civa::links::{link_destination_of, LinkProbe, LinkStep, LinkWalk, MAX_LINK_HOPS};

#[test]
fn test_split_var_string() {
    let result = split_var_string(String::from("/hello/world:other/one"));
    assert_eq!(result, vec!["/hello/world", "other/one"])
}

#[test]
fn test_collect_all_binaries_of_path() {
    let index = EnvManager::from_candidates(vec![
        (String::from("ls"), String::from("/bin/ls")),
        (String::from("cat"), String::from("/bin/cat")),
    ]);
    assert!(index.has_command("ls"));
    assert!(index.has_command("cat"));
    assert!(!index.has_command("dog"));
}

#[test]
fn split_var_string_keeps_empty_entries() {
    assert_eq!(split_var_string(String::from("")), vec![""]);
    assert_eq!(split_var_string(String::from("a::b:")), vec!["a", "", "b", ""]);
}

#[test]
fn first_listed_directory_wins() {
    let index = EnvManager::from_candidates(vec![
        (String::from("tool"), String::from("/first/tool")),
        (String::from("other"), String::from("/first/other")),
        (String::from("tool"), String::from("/second/tool")),
    ]);
    assert_eq!(index.get_expanded(String::from("tool")), Some(&String::from("/first/tool")));

    let reversed = EnvManager::from_candidates(vec![
        (String::from("tool"), String::from("/second/tool")),
        (String::from("tool"), String::from("/first/tool")),
    ]);
    assert_eq!(reversed.get_expanded(String::from("tool")), Some(&String::from("/second/tool")));
}

#[test]
fn add_binary_keeps_the_earlier_entry() {
    let mut index = EnvManager::new();
    assert!(index.add_binary(String::from("tool"), String::from("/a/tool")));
    assert!(!index.add_binary(String::from("tool"), String::from("/b/tool")));
    assert_eq!(index.get_expanded(String::from("tool")), Some(&String::from("/a/tool")));
    assert_eq!(index.get_expanded(String::from("nothing")), None);
}

#[test]
fn link_destination_relative_and_absolute() {
    assert_eq!(link_destination_of("/usr/bin/python", "python3"), "/usr/bin/python3");
    assert_eq!(link_destination_of("/usr/bin/vi", "/usr/bin/vim"), "/usr/bin/vim");
    assert_eq!(link_destination_of("/sh", "bash"), "/bash");
    assert_eq!(link_destination_of("tool", "../lib/tool"), "./../lib/tool");
}

#[test]
fn link_chain_of_five_resolves() {
    let mut walk = LinkWalk::new(String::from("/bin/a"));
    for name in ["b", "c", "d", "e", "f"] {
        let step = walk.step(LinkProbe::Link(String::from(name)));
        assert_eq!(step, LinkStep::Follow(format!("/bin/{}", name)));
    }
    assert_eq!(walk.hops, 5);
    let step = walk.step(LinkProbe::RegularFile(String::from("/usr/bin/f")));
    assert_eq!(step, LinkStep::Resolved(String::from("/usr/bin/f")));
}

#[test]
fn link_cycle_is_dropped() {
    let mut walk = LinkWalk::new(String::from("/bin/a"));
    let mut follows = 0;
    loop {
        let target = if follows % 2 == 0 { "b" } else { "a" };
        match walk.step(LinkProbe::Link(String::from(target))) {
            LinkStep::Follow(_) => follows += 1,
            LinkStep::Dropped => break,
            LinkStep::Resolved(_) => panic!("a cycle has no file"),
        }
        assert!(follows <= MAX_LINK_HOPS);
    }
    assert_eq!(follows, MAX_LINK_HOPS);
}

#[test]
fn unusable_entry_is_dropped() {
    let mut walk = LinkWalk::new(String::from("/bin/broken"));
    assert_eq!(walk.step(LinkProbe::Unusable), LinkStep::Dropped);
}
