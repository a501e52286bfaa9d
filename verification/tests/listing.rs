use figura::config::{
    Condition, Config, FieldStyle, FileKind, ListConfig, ListIconConfig, Op, SizeUnit,
};
use figura::dir::{DetailedEntry, Metadata};
use figura::git::{GitCache, GitStatus, StatusEntry, StatusFlags};
use figura::named::Named;
use figura::style::{Color, Style};
use figura::table::Table;
use figura::tree::{goes_into, passes_over, should_skip_path, SyncWalk, Visit};
use figura::util::{
    display_permission, format_template, keep_letters_whitespace, permissions_to_string, PlsError,
};
use figura::vars::{Template, Var, VarOp};
use figura::{Alignment, Context, Value};

fn cell(text: &str, alignment: Alignment) -> (String, Alignment) {
    (text.to_string(), alignment)
}

#[test]
fn permission_strings() {
    assert_eq!(permissions_to_string(0o755), "rwxr-xr-x");
    assert_eq!(permissions_to_string(0o644), "rw-r--r--");
    assert_eq!(permissions_to_string(0), "---------");
    assert_eq!(permissions_to_string(0o100777), "rwxrwxrwx");
    assert_eq!(display_permission(0b101), "r-x");
    assert_eq!(display_permission(0b010), "-w-");
}

#[test]
fn letters_and_spaces_are_kept() {
    assert_eq!(keep_letters_whitespace("a1b2 c-d\te!"), "ab cd\te");
    assert_eq!(keep_letters_whitespace(""), "");
    assert_eq!(keep_letters_whitespace("123"), "");
}

#[test]
fn plain_substitution() {
    let mut values: Named<String> = Named::new();
    values.insert("name", "John".to_string());
    values.insert("", "empty".to_string());
    assert_eq!(format_template("{name}!", &values).unwrap(), "John!");
    assert_eq!(format_template("a } b }} c", &values).unwrap(), "a } b }} c");
    assert_eq!(format_template("{}", &values).unwrap(), "empty");
    // an opening brace before another one stands for itself, and the second is read again
    assert_eq!(format_template("{{name}", &values).unwrap(), "{John");
    // a name without closing brace runs to the end of the text
    assert_eq!(format_template("x{name", &values).unwrap(), "xJohn");
    assert_eq!(
        format_template("{age}", &values),
        Err(PlsError::NoValueForTemplate("age".to_string()))
    );
    assert_eq!(
        PlsError::NoValueForTemplate("age".to_string()).to_string(),
        "There is no value for template 'age'"
    );
    assert_eq!(
        PlsError::NoClosedBracket.to_string(),
        "Encountered an open bracket without a corresponding closed one."
    );
    assert_eq!(
        PlsError::InvalidConditionalFormat.to_string(),
        "Encountered invalid format for a conditional operation"
    );
}

#[test]
fn size_units() {
    assert_eq!(SizeUnit::default(), SizeUnit::Auto);
    assert_eq!(SizeUnit::Auto.unit_for(0), SizeUnit::Bytes);
    assert_eq!(SizeUnit::Auto.unit_for(1023), SizeUnit::Bytes);
    assert_eq!(SizeUnit::Auto.unit_for(1024), SizeUnit::KB);
    assert_eq!(SizeUnit::Auto.unit_for(1024 * 1024 - 1), SizeUnit::KB);
    assert_eq!(SizeUnit::Auto.unit_for(1024 * 1024), SizeUnit::MB);
    assert_eq!(SizeUnit::Auto.unit_for(1024 * 1024 * 1024), SizeUnit::GB);
    assert_eq!(SizeUnit::Auto.unit_for(1024 * 1024 * 1024 * 1024), SizeUnit::TB);
    assert_eq!(SizeUnit::Auto.unit_for(u64::MAX), SizeUnit::TB);
    assert_eq!(SizeUnit::MB.unit_for(1), SizeUnit::MB);
    assert_eq!(SizeUnit::KB.bytes(), 1024);
    assert_eq!(SizeUnit::TB.bytes(), 1024 * 1024 * 1024 * 1024);
    assert_eq!(SizeUnit::Bytes.suffix(), "B");
    assert_eq!(SizeUnit::KB.suffix(), "kB");
    assert_eq!(SizeUnit::GB.suffix(), "GB");
    assert_eq!(SizeUnit::from_name("Kb"), Some(SizeUnit::KB));
    assert_eq!(SizeUnit::from_name("AUTO"), Some(SizeUnit::Auto));
    assert_eq!(SizeUnit::from_name("b"), Some(SizeUnit::Bytes));
    assert_eq!(SizeUnit::from_name("pb"), None);
}

#[test]
fn file_kinds() {
    assert_eq!(FileKind::from_metadata(true, Some(true), false, 0o777), FileKind::SymlinkDirectory);
    assert_eq!(FileKind::from_metadata(true, Some(false), false, 0o777), FileKind::SymlinkFile);
    assert_eq!(FileKind::from_metadata(true, None, false, 0o777), FileKind::BrokenSymlink);
    assert_eq!(FileKind::from_metadata(false, None, true, 0o755), FileKind::Directory);
    assert_eq!(FileKind::from_metadata(false, None, false, 0o755), FileKind::Executable);
    assert_eq!(FileKind::from_metadata(false, None, false, 0o001), FileKind::Executable);
    assert_eq!(FileKind::from_metadata(false, None, false, 0o644), FileKind::File);
    assert_eq!(FileKind::Directory.to_string(), "directory");
    assert_eq!(FileKind::BrokenSymlink.to_string(), "broken_symlink");
    assert_eq!(FileKind::from_name("symlink_file"), Some(FileKind::SymlinkFile));
    assert_eq!(FileKind::from_name("Directory"), None);
    assert_eq!(figura::dir::FileKind::from_type(true, true, true), figura::dir::FileKind::Directory);
    assert_eq!(figura::dir::FileKind::from_type(false, false, true), figura::dir::FileKind::Symlink);
    assert_eq!(figura::dir::FileKind::from_type(false, false, false), figura::dir::FileKind::Other);
    assert_eq!(figura::dir::FileKind::File.to_string(), "f");
    assert_eq!(figura::dir::FileKind::Other.to_string(), "?");
}

#[test]
fn operators_by_name() {
    assert_eq!(Op::from_name("="), Some(Op::Equal));
    assert_eq!(Op::from_name("EQ"), Some(Op::Equal));
    assert_eq!(Op::from_name(">"), Some(Op::Greater));
    assert_eq!(Op::from_name("lt"), Some(Op::Less));
    assert_eq!(Op::from_name(">="), Some(Op::GreaterEqual));
    assert_eq!(Op::from_name("Lte"), Some(Op::LessEqual));
    assert_eq!(Op::from_name("=="), None);
}

fn rule(variable: &str, op: Op, value: &str) -> Condition<String> {
    Condition {
        variable: variable.to_string(),
        op,
        value: value.to_string(),
        result: "hit".to_string(),
    }
}

#[test]
fn conditions() {
    let mut ctx = Context::new();
    ctx.insert("size", Value::Int(10));
    ctx.insert("kind", Value::String("directory".to_string()));
    ctx.insert("flag", Value::Bool(true));
    assert!(rule("kind", Op::Equal, "directory").evaluate(&ctx));
    assert!(!rule("kind", Op::Equal, "file").evaluate(&ctx));
    assert!(!rule("missing", Op::Equal, "").evaluate(&ctx));
    assert!(rule("flag", Op::Equal, "true").evaluate(&ctx));
    // both are numbers: 10 > 9, though "10" comes before "9" as a string
    assert!(rule("size", Op::Greater, "9").evaluate(&ctx));
    assert!(!rule("size", Op::Less, "9").evaluate(&ctx));
    assert!(rule("size", Op::GreaterEqual, "+10").evaluate(&ctx));
    assert!(rule("size", Op::LessEqual, "10").evaluate(&ctx));
    // equality is equality of texts
    assert!(!rule("size", Op::Equal, "+10").evaluate(&ctx));
    // one of them is no number: the order of strings
    assert!(rule("size", Op::Less, "9a").evaluate(&ctx));
    assert!(rule("kind", Op::Greater, "dir").evaluate(&ctx));
    assert!(rule("kind", Op::Less, "directory!").evaluate(&ctx));
    assert!(rule("kind", Op::GreaterEqual, "directory").evaluate(&ctx));
    assert!(rule("kind", Op::LessEqual, "directory").evaluate(&ctx));
    assert!(!rule("kind", Op::Less, "directory").evaluate(&ctx));
    assert!(rule("kind", Op::Less, "e").evaluate(&ctx));
    assert!(!rule("kind", Op::Greater, "e").evaluate(&ctx));
}

#[test]
fn icons() {
    let icons = ListIconConfig::default();
    let mut ctx = Context::new();
    assert_eq!(icons.resolve(&ctx), "f");
    ctx.insert("kind", Value::String("directory".to_string()));
    assert_eq!(icons.resolve(&ctx), "d");
    ctx.insert("kind", Value::String("file".to_string()));
    assert_eq!(icons.resolve(&ctx), "f");
    let icons = ListIconConfig {
        default: "?".to_string(),
        conditions: vec![
            Condition {
                variable: "size".to_string(),
                op: Op::Greater,
                value: "100".to_string(),
                result: "big".to_string(),
            },
            Condition {
                variable: "size".to_string(),
                op: Op::Greater,
                value: "10".to_string(),
                result: "medium".to_string(),
            },
        ],
    };
    ctx.insert("size", Value::Int(1000));
    assert_eq!(icons.resolve(&ctx), "big");
    ctx.insert("size", Value::Int(50));
    assert_eq!(icons.resolve(&ctx), "medium");
    ctx.insert("size", Value::Int(5));
    assert_eq!(icons.resolve(&ctx), "?");
}

fn red() -> Style {
    Style {
        foreground: Some(Color::Named("red".to_string())),
        background: None,
        text: None,
    }
}

fn green() -> Style {
    Style {
        foreground: Some(Color::Named("green".to_string())),
        background: None,
        text: None,
    }
}

#[test]
fn field_styles() {
    let field = FieldStyle {
        default: Some(green()),
        conditions: vec![Condition {
            variable: "kind".to_string(),
            op: Op::Equal,
            value: "directory".to_string(),
            result: red(),
        }],
    };
    let mut ctx = Context::new();
    assert_eq!(field.resolve("x", &ctx), "\x1b[32mx\x1b[0m");
    ctx.insert("kind", Value::String("directory".to_string()));
    assert_eq!(field.resolve("x", &ctx), "\x1b[31mx\x1b[0m");
    let bare = FieldStyle { default: None, conditions: vec![] };
    assert_eq!(bare.resolve("x", &ctx), "x");
}

#[test]
fn default_configuration() {
    let config = Config::default();
    assert_eq!(
        config.ls.format,
        vec!["{kind}", "{name}", "{permissions}", "{size}", "{modified}"]
    );
    assert_eq!(config.ls.padding, 2);
    assert_eq!(config.ls.size_unit, SizeUnit::Auto);
    assert_eq!(config.ls.created_fmt, "%b %d %H:%M");
    assert_eq!(config.ls.modified_fmt, "%b %d %H:%M");
    assert_eq!(config.ls.accessed_fmt, "%b %d %H:%M");
    assert_eq!(config.ls.style.len(), 0);
    let ctx = Context::new();
    assert_eq!(config.ls.apply_field_style("name", "a", &ctx), "a");
    let mut list = ListConfig::default();
    list.style.insert("name", FieldStyle { default: Some(red()), conditions: vec![] });
    assert_eq!(list.apply_field_style("name", "a", &ctx), "\x1b[31ma\x1b[0m");
    assert_eq!(list.apply_field_style("size", "a", &ctx), "a");
}

#[test]
fn git_states() {
    let none = StatusFlags {
        ignored: false,
        conflicted: false,
        wt_new: false,
        wt_modified: false,
        wt_deleted: false,
        index_deleted: false,
        wt_renamed: false,
        index_renamed: false,
    };
    assert_eq!(GitStatus::from_flags(none), GitStatus::Clean);
    assert_eq!(
        GitStatus::from_flags(StatusFlags { ignored: true, conflicted: true, ..none }),
        GitStatus::Ignored
    );
    assert_eq!(
        GitStatus::from_flags(StatusFlags { conflicted: true, wt_new: true, ..none }),
        GitStatus::Conflict
    );
    assert_eq!(
        GitStatus::from_flags(StatusFlags { wt_new: true, wt_modified: true, ..none }),
        GitStatus::Untracked
    );
    assert_eq!(
        GitStatus::from_flags(StatusFlags { wt_modified: true, wt_deleted: true, ..none }),
        GitStatus::Modified
    );
    assert_eq!(
        GitStatus::from_flags(StatusFlags { index_deleted: true, wt_renamed: true, ..none }),
        GitStatus::Deleted
    );
    assert_eq!(
        GitStatus::from_flags(StatusFlags { index_renamed: true, ..none }),
        GitStatus::Renamed
    );
    assert_eq!(GitStatus::Conflict.priority(), 6);
    assert_eq!(GitStatus::Modified.priority(), 5);
    assert_eq!(GitStatus::Deleted.priority(), 5);
    assert_eq!(GitStatus::Renamed.priority(), 5);
    assert_eq!(GitStatus::Untracked.priority(), 4);
    assert_eq!(GitStatus::Ignored.priority(), 3);
    assert_eq!(GitStatus::Clean.priority(), 1);
    assert_eq!(GitStatus::Untracked.to_string(), "Untracked");
    assert_eq!(GitStatus::Clean.to_string(), "Clean");
}

fn git_says(path: &str, parent: Option<&str>, status: GitStatus) -> StatusEntry {
    StatusEntry {
        path: path.to_string(),
        parent: parent.map(|p| p.to_string()),
        status,
    }
}

#[test]
fn git_cache() {
    let entries = vec![
        git_says("src/a.rs", Some("src"), GitStatus::Untracked),
        git_says("src/b.rs", Some("src"), GitStatus::Modified),
        git_says("src/c.rs", Some("src"), GitStatus::Deleted),
        git_says("src/d.rs", Some("src"), GitStatus::Clean),
        git_says("README", Some(""), GitStatus::Clean),
        git_says("doc", None, GitStatus::Ignored),
        git_says("doc/a", Some("doc"), GitStatus::Clean),
        git_says("src/a.rs", Some("src"), GitStatus::Ignored),
    ];
    let cache = GitCache::from_entries(&entries);
    assert_eq!(cache.get_status("src/b.rs"), Some(GitStatus::Modified));
    // the last entry of a path counts
    assert_eq!(cache.get_status("src/a.rs"), Some(GitStatus::Ignored));
    // a directory has the most urgent state of its files, and of equals the last
    assert_eq!(cache.get_status("src"), Some(GitStatus::Deleted));
    assert_eq!(cache.get_status(""), Some(GitStatus::Clean));
    // as a directory with entries, not as a path of its own
    assert_eq!(cache.get_status("doc"), Some(GitStatus::Clean));
    assert_eq!(cache.get_status("missing"), None);
    let empty = GitCache::from_entries(&vec![]);
    assert_eq!(empty.get_status("src"), None);
}

#[test]
fn table_without_rows() {
    let mut table = Table::new();
    assert_eq!(table.to_string(), "No rows");
    table.add_row(vec![]);
    assert_eq!(table.rows().len(), 0);
    assert_eq!(table.to_string(), "No rows");
}

#[test]
fn table_left_and_right() {
    let mut table = Table::new();
    table.add_row(vec![cell("a", Alignment::Left), cell("bb", Alignment::Right)]);
    table.add_row(vec![cell("ccc", Alignment::Left), cell("d", Alignment::Right)]);
    assert_eq!(table.rows().len(), 2);
    assert_eq!(table.column_width(0), 3);
    assert_eq!(table.column_width(1), 2);
    assert_eq!(table.column_width(2), 0);
    assert_eq!(table.longest_row(), 2);
    assert_eq!(table.column_widths(), vec![3, 2]);
    assert_eq!(table.to_string(), "a   bb\nccc  d");
    let table = table.padding(3);
    assert_eq!(table.to_string(), "a     bb\nccc    d");
    let table = table.padding(0);
    assert_eq!(table.to_string(), "a  bb\nccc d");
}

#[test]
fn table_centered() {
    let mut table = Table::new().padding(2);
    table.add_row(vec![cell("x", Alignment::Center), cell("y", Alignment::Center)]);
    table.add_row(vec![cell("abcd", Alignment::Right), cell("uvw", Alignment::Left)]);
    table.add_row(vec![cell("ab", Alignment::Right)]);
    assert_eq!(table.to_string(), " x     y \nabcd  uvw\n  ab");
}

#[test]
fn table_counts_columns_not_characters() {
    let mut table = Table::new();
    table.add_row(vec![cell("\x1b[31mab\x1b[0m", Alignment::Left), cell("1", Alignment::Left)]);
    table.add_row(vec![cell("abcd", Alignment::Left), cell("2", Alignment::Left)]);
    table.add_row(vec![cell("\u{65e5}\u{672c}", Alignment::Left), cell("3", Alignment::Left)]);
    table.add_row(vec![cell("\u{65e5}", Alignment::Right), cell("4", Alignment::Left)]);
    assert_eq!(table.column_width(0), 4);
    assert_eq!(
        table.to_string(),
        "\x1b[31mab\x1b[0m   1\nabcd 2\n\u{65e5}\u{672c} 3\n  \u{65e5} 4"
    );
}

#[test]
fn walk_decisions() {
    let walk = SyncWalk::new(".").max_depth(2);
    assert_eq!(walk.visit("a", 3, "a", false, false), Visit::Skip);
    assert_eq!(walk.visit("a", 2, "a", false, true), Visit::Yield { descend: false });
    assert_eq!(walk.visit("a", 1, "a", false, true), Visit::Yield { descend: true });
    assert_eq!(walk.visit("a", 1, "a", false, false), Visit::Yield { descend: false });
    assert_eq!(walk.visit("a", 1, "a", true, false), Visit::Skip);
    assert_eq!(walk.visit(".a", 1, ".a", false, false), Visit::Skip);
    assert_eq!(walk.visit(".", 0, ".", false, true), Visit::Yield { descend: true });
    assert_eq!(walk.visit("/proc", 1, "proc", false, true), Visit::Skip);
    assert_eq!(walk.visit("/proc", 1, "proc", false, false), Visit::Yield { descend: false });
    let walk = walk.skip_hidden(false).skip_symlinks(false).skip_dirs(vec!["x".to_string()]);
    assert_eq!(walk.visit(".a", 1, ".a", true, false), Visit::Yield { descend: false });
    assert_eq!(walk.visit("/proc", 1, "proc", false, true), Visit::Yield { descend: true });
    assert_eq!(walk.visit("x", 1, "x", false, true), Visit::Skip);
}

#[test]
fn walk_order() {
    let mut walk = SyncWalk::new("root");
    assert_eq!(walk.pop(), Some(("root".to_string(), 0)));
    assert_eq!(walk.pop(), None);
    walk.push_children(vec!["a".to_string(), "b".to_string(), "c".to_string()], 1);
    assert_eq!(walk.pop(), Some(("a".to_string(), 1)));
    walk.push_children(vec!["a/x".to_string(), "a/y".to_string()], 2);
    assert_eq!(walk.pop(), Some(("a/x".to_string(), 2)));
    assert_eq!(walk.pop(), Some(("a/y".to_string(), 2)));
    assert_eq!(walk.pop(), Some(("b".to_string(), 1)));
    assert_eq!(walk.pop(), Some(("c".to_string(), 1)));
    assert_eq!(walk.pop(), None);
    assert!(passes_over(".git", true));
    assert!(passes_over(".", true));
    assert!(!passes_over(".git", false));
    assert!(!passes_over("git", true));
    assert!(!passes_over("", true));
    assert!(goes_into(true, false, 1, 2, false));
    assert!(!goes_into(true, false, 2, 2, false));
    assert!(!goes_into(true, true, 1, 2, false));
    assert!(goes_into(true, true, 1, 2, true));
    assert!(!goes_into(false, false, 1, 2, true));
}

#[test]
fn paths_left_out_of_totals() {
    assert!(should_skip_path("/proc"));
    assert!(should_skip_path("/proc/1/status"));
    assert!(should_skip_path("/sys/kernel"));
    assert!(should_skip_path("/device"));
    assert!(!should_skip_path("/pro"));
    assert!(!should_skip_path("proc"));
    assert!(!should_skip_path("/home/proc"));
    assert!(!should_skip_path(""));
}

#[test]
fn detailed_entries() {
    let meta = Metadata { size: 12, mode: 0o100754, nlink: 2, modified: Some(1700000000) };
    let entry = DetailedEntry::new(
        "./src/main.rs",
        "main.rs".to_string(),
        Some("rs".to_string()),
        figura::dir::FileKind::File,
        Some(meta),
        Some("ignored".to_string()),
    );
    assert_eq!(entry.path(), "src/main.rs");
    assert_eq!(entry.name(), "main.rs");
    assert_eq!(entry.ext(), &Some("rs".to_string()));
    assert_eq!(entry.kind(), figura::dir::FileKind::File);
    assert_eq!(entry.size(), 12);
    assert_eq!(entry.permissions(), "rwxr-xr--");
    assert_eq!(entry.timestamp(), Some(1700000000));
    assert_eq!(entry.nlink(), 2);
    assert!(entry.executable());
    assert_eq!(entry.link_target(), &None);
    let entry = DetailedEntry::new(
        "link",
        "link".to_string(),
        None,
        figura::dir::FileKind::Symlink,
        None,
        Some("target".to_string()),
    );
    assert_eq!(entry.path(), "link");
    assert_eq!(entry.size(), 0);
    assert_eq!(entry.permissions(), "unknown");
    assert_eq!(entry.timestamp(), None);
    assert_eq!(entry.nlink(), 1);
    assert!(!entry.executable());
    assert_eq!(entry.link_target(), &Some("target".to_string()));
    let meta = Metadata { size: 0, mode: 0o644, nlink: 1, modified: None };
    let entry = DetailedEntry::new(
        ".",
        ".".to_string(),
        None,
        figura::dir::FileKind::Directory,
        Some(meta),
        None,
    );
    assert_eq!(entry.path(), ".");
    assert!(!entry.executable());
}

#[test]
fn listing_operations() {
    assert_eq!(Var::from_str("depth"), Var::Depth);
    assert_eq!(Var::from_str("link_target"), Var::LinkTarget);
    assert_eq!(Var::from_str("Depth"), Var::Unknown("Depth".to_string()));
    assert_eq!(Template::parse_operation("name"), VarOp::Replace(Var::Name));
    assert_eq!(Template::parse_operation(""), VarOp::Replace(Var::Unknown("".to_string())));
    assert_eq!(
        Template::parse_operation(" :depth"),
        VarOp::Repeat { pattern: Var::Unknown(" ".to_string()), count_var: Var::Depth }
    );
    assert_eq!(
        Template::parse_operation("a:b:c"),
        VarOp::Replace(Var::Unknown("a:b:c".to_string()))
    );
    assert_eq!(
        Template::parse_operation("a:b?c:d"),
        VarOp::Conditional {
            condition_var: Var::Unknown("a:b".to_string()),
            true_part: Var::Unknown("c".to_string()),
            false_part: Var::Unknown("d".to_string()),
        }
    );
    assert_eq!(
        Template::parse_operation("a?b?c:d"),
        VarOp::Replace(Var::Unknown("a?b?c:d".to_string()))
    );
    assert_eq!(
        Template::parse_operation("?:"),
        VarOp::Conditional {
            condition_var: Var::Unknown("".to_string()),
            true_part: Var::Unknown("".to_string()),
            false_part: Var::Unknown("".to_string()),
        }
    );
    assert!(Template::validate_brackets("{a}{{}}"));
    assert!(!Template::validate_brackets("{a"));
    assert!(!Template::validate_brackets("a}"));
    let defaults = Template::default_templates();
    assert_eq!(defaults.len(), 4);
    assert_eq!(defaults[0], Template::parse("{ :depth}").unwrap());
    assert_eq!(defaults[1], Template::parse("{icon}").unwrap());
    assert_eq!(defaults[2], Template::parse("{name<}").unwrap());
    assert_eq!(defaults[3], Template::parse("{size>}").unwrap());
}
