use blsforme::entry::{CmdlineSnippetFile, Entry};
use blsforme::{Error, Kernel};

fn kernel() -> Kernel {
    Kernel { version: String::from("6.1.0"), image: String::from("/usr/lib/kernel/vmlinuz") }
}

fn snippet(name: &str, content: &str) -> CmdlineSnippetFile {
    CmdlineSnippetFile { name: String::from(name), content: Some(String::from(content)) }
}

#[test]
fn missing_cmdline_dir_is_not_an_error() {
    let k = kernel();
    let mut entry = Entry::new(&k);
    let r = entry.load_cmdline_snippets(&None);
    assert!(r.is_ok());
    assert!(entry.cmdline.is_empty());
}

#[test]
fn snippets_are_recorded_verbatim_in_order() {
    let k = kernel();
    let mut entry = Entry::new(&k);
    let listing = Some(vec![
        snippet("00-quiet.cmdline", "quiet"),
        snippet("10-extra.cmdline", "splash resume=auto"),
    ]);
    let r = entry.load_cmdline_snippets(&listing);
    assert!(r.is_ok());
    assert_eq!(entry.cmdline.len(), 2);
    assert_eq!(entry.cmdline[0].name, "00-quiet.cmdline");
    assert_eq!(entry.cmdline[0].snippet, "quiet");
    assert_eq!(entry.cmdline[1].name, "10-extra.cmdline");
    assert_eq!(entry.cmdline[1].snippet, "splash resume=auto");
}

#[test]
fn later_loads_append_after_earlier_ones() {
    let k = kernel();
    let mut entry = Entry::new(&k);
    entry.load_cmdline_snippets(&Some(vec![snippet("00-a.cmdline", "a")])).unwrap();
    entry.load_cmdline_snippets(&Some(vec![snippet("10-b.cmdline", "b")])).unwrap();
    assert_eq!(entry.cmdline.len(), 2);
    assert_eq!(entry.cmdline[0].name, "00-a.cmdline");
    assert_eq!(entry.cmdline[1].name, "10-b.cmdline");
}

#[test]
fn unreadable_snippet_fails_the_whole_load() {
    let k = kernel();
    let mut entry = Entry::new(&k);
    let listing = Some(vec![
        snippet("00-ok.cmdline", "quiet"),
        CmdlineSnippetFile { name: String::from("10-bad.cmdline"), content: None },
        snippet("20-late.cmdline", "never seen"),
    ]);
    let r = entry.load_cmdline_snippets(&listing);
    match r {
        Err(Error::SnippetRead(name)) => assert_eq!(name, "10-bad.cmdline"),
        Ok(()) => panic!("load succeeded over an unreadable snippet"),
    }
    assert!(entry.cmdline.is_empty(), "a failed load must leave the entry unchanged");
}

#[test]
fn cmdline_dir_under_configured_root() {
    let k = kernel();
    let entry = Entry::new(&k);
    let dir = entry.cmdline_dir(&String::from("/"));
    assert_eq!(dir, "/usr/lib/kernel/cmdline.d");
}

#[test]
fn cmdline_dir_prefers_sysroot() {
    let k = kernel();
    let entry = Entry::new(&k).with_sysroot(String::from("/mnt/target"));
    let dir = entry.cmdline_dir(&String::from("/"));
    assert_eq!(dir, "/mnt/target/usr/lib/kernel/cmdline.d");
}
