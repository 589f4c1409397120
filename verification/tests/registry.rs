//! Agent types and worktrees.

use codex_flow::registry::{
    agent_system_prefix, agents_dir, framing_from, strip_frontmatter, TypeFile,
};
use codex_flow::worktree::{
    add_args, check_added, remove_args, worktree_dir, GitOutcome, WorktreeSpec,
};

#[test]
fn frontmatter_stripped_body_kept() {
    let md = "---\nname: auditor\ndescription: x\n---\nYou are strict.\nFind bugs.";
    assert_eq!(strip_frontmatter(md), "You are strict.\nFind bugs.");
}

#[test]
fn no_frontmatter_returned_whole() {
    assert_eq!(strip_frontmatter("Just a body"), "Just a body");
    // A later --- is body content, not frontmatter.
    let md = "Body first\n---\nstill body";
    assert_eq!(strip_frontmatter(md), md);
}

#[test]
fn unterminated_frontmatter_not_swallowed() {
    let md = "---\nname: x\nno closing fence";
    assert_eq!(strip_frontmatter(md), md);
}

#[test]
fn closing_fence_at_eof_yields_empty_body() {
    assert_eq!(strip_frontmatter("---\nname: x\n---"), "");
    assert_eq!(strip_frontmatter("---\r\nname: x\r\n---\r"), "");
}

#[test]
fn frontmatter_edges() {
    assert_eq!(strip_frontmatter(""), "");
    assert_eq!(strip_frontmatter("---"), "---");
    assert_eq!(strip_frontmatter("---\n"), "---\n");
    assert_eq!(strip_frontmatter("---\r\na: é\r\n---\r\nBödy"), "Bödy");
    // The block ends at its first closing fence, whichever line ending it has.
    assert_eq!(strip_frontmatter("---\na\n---\r\nb\n---\nc"), "b\n---\nc");
    assert_eq!(strip_frontmatter("---\r\na\n---\nb\n---\r\nc"), "b\n---\r\nc");
    assert_eq!(
        strip_frontmatter("---\r\nname: x\r\n---\r\nbody\n---\nmore"),
        "body\n---\nmore"
    );
    assert_eq!(strip_frontmatter("---\na\n---\nb\n---"), "b\n---");
    // The fence must stand on a line of its own.
    assert_eq!(strip_frontmatter("---\n---\nx"), "---\n---\nx");
}

fn read(name: &str) -> TypeFile {
    if name == "auditor.md" {
        TypeFile::Text("---\nname: auditor\n---\nYou are a strict auditor.\n".into())
    } else {
        TypeFile::Unreadable { path: format!("/agents/{name}"), error: "not found".into() }
    }
}

#[test]
fn prefix_hit_missing_and_traversal() {
    assert_eq!(
        agent_system_prefix("auditor", read).unwrap(),
        "You are a strict auditor."
    );
    assert!(agent_system_prefix("nope", read).is_err(), "typo errors");
    assert!(
        agent_system_prefix("../evil", read).is_err(),
        "traversal refused"
    );
}

#[test]
fn bad_type_names_are_refused_unread() {
    for bad in ["", "a/b", "a\\b", "..", "a..b", "q\"/"] {
        let e = agent_system_prefix(bad, |_| panic!("must not be read")).unwrap_err();
        assert_eq!(e, format!("agentType {bad:?}: invalid type name"));
    }
}

#[test]
fn missing_types_say_which_file() {
    assert_eq!(
        agent_system_prefix("nope", read).unwrap_err(),
        "agentType \"nope\": cannot read /agents/nope.md: not found"
    );
    assert_eq!(framing_from("t", TypeFile::Text("  x \n".into())).unwrap(), "x");
}

#[test]
fn registry_directory() {
    assert_eq!(agents_dir(Some("/d".into()), Some("/h".into())), vec!["/d"]);
    assert_eq!(agents_dir(None, Some("/h".into())), vec!["/h", ".codex-flow", "agents"]);
    assert_eq!(agents_dir(None, None), vec![".", ".codex-flow", "agents"]);
}

#[test]
fn worktree_commands() {
    let w = WorktreeSpec { repo: "/r".into(), base: "/t".into() };
    assert_eq!(w.clone().repo, "/r");
    assert_eq!(worktree_dir(7), "wt-7");
    assert_eq!(
        add_args("/r", "/t/wt-7"),
        vec!["-C", "/r", "worktree", "add", "--detach", "/t/wt-7"]
    );
    assert_eq!(
        remove_args("/r", "/t/wt-7"),
        vec!["-C", "/r", "worktree", "remove", "--force", "/t/wt-7"]
    );
}

#[test]
fn worktree_outcomes() {
    assert_eq!(
        check_added("/r", GitOutcome::Exited { success: true, stderr: "warning".into() }),
        Ok(())
    );
    assert_eq!(
        check_added("/r", GitOutcome::Exited { success: false, stderr: " fatal: no\n".into() }),
        Err("isolate: git worktree add failed (is /r inside a git repo?): fatal: no".into())
    );
    assert_eq!(
        check_added("/r", GitOutcome::NotRun { error: "gone".into() }),
        Err("isolate: cannot run git: gone".into())
    );
}
