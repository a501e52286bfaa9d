//! The configuration of a listing: what kind an entry is, in which unit
//! sizes are shown, and the rules that pick an icon or a style for an entry
//! from its context.

use vstd::prelude::*;
use crate::named::Named;
use crate::style::{style_prefix, styled, Style};
use crate::text::{char_at, chars_of, same_text, to_lowercase, unicode_lowercase};
use crate::token::{parse_signed, signed_value};
use crate::value::{value_text, Context, ContextView};

verus! {

/// The unit in which a size is shown.
#[derive(Debug, Clone, Copy, PartialEq, Eq)]
pub enum SizeUnit {
    /// The largest unit in which the size is at least 1.
    Auto,
    Bytes,
    KB,
    MB,
    GB,
    TB,
}

impl Default for SizeUnit {
    fn default() -> (u: SizeUnit)
        ensures
            u == SizeUnit::Auto,
    {
        SizeUnit::Auto
    }
}

/// The unit that a word of a configuration stands for, from the word in
/// lower case.
pub open spec fn size_unit_named(lower: Seq<char>) -> Option<SizeUnit> {
    if lower == "auto"@ {
        Some(SizeUnit::Auto)
    } else if lower == "b"@ {
        Some(SizeUnit::Bytes)
    } else if lower == "kb"@ {
        Some(SizeUnit::KB)
    } else if lower == "mb"@ {
        Some(SizeUnit::MB)
    } else if lower == "gb"@ {
        Some(SizeUnit::GB)
    } else if lower == "tb"@ {
        Some(SizeUnit::TB)
    } else {
        None
    }
}

/// The unit in which `unit` shows a size of `bytes`: `unit` itself, and for
/// `Auto` the largest unit of which `bytes` holds at least one.
pub open spec fn unit_for(unit: SizeUnit, bytes: u64) -> SizeUnit {
    match unit {
        SizeUnit::Auto => if bytes < 0x400 {
            SizeUnit::Bytes
        } else if bytes < 0x10_0000 {
            SizeUnit::KB
        } else if bytes < 0x4000_0000 {
            SizeUnit::MB
        } else if bytes < 0x100_0000_0000 {
            SizeUnit::GB
        } else {
            SizeUnit::TB
        },
        _ => unit,
    }
}

/// How many bytes make one of `unit`; 1 for `Auto`.
pub open spec fn unit_bytes(unit: SizeUnit) -> u64 {
    match unit {
        SizeUnit::Auto => 1,
        SizeUnit::Bytes => 1,
        SizeUnit::KB => 0x400,
        SizeUnit::MB => 0x10_0000,
        SizeUnit::GB => 0x4000_0000,
        SizeUnit::TB => 0x100_0000_0000,
    }
}

impl SizeUnit {
    /// The unit that a word of a configuration stands for, in any case.
    pub fn from_name(name: &str) -> (r: Option<SizeUnit>)
        ensures
            r == size_unit_named(unicode_lowercase(name@)),
    {
        let lowered = to_lowercase(name);
        let lower = lowered.as_str();
        if same_text(lower, "auto") {
            Some(SizeUnit::Auto)
        } else if same_text(lower, "b") {
            Some(SizeUnit::Bytes)
        } else if same_text(lower, "kb") {
            Some(SizeUnit::KB)
        } else if same_text(lower, "mb") {
            Some(SizeUnit::MB)
        } else if same_text(lower, "gb") {
            Some(SizeUnit::GB)
        } else if same_text(lower, "tb") {
            Some(SizeUnit::TB)
        } else {
            None
        }
    }

    /// The unit in which a size of `bytes` is shown.
    pub fn unit_for(&self, bytes: u64) -> (u: SizeUnit)
        ensures
            u == unit_for(*self, bytes),
            !(u is Auto),
    {
        match self {
            SizeUnit::Auto => if bytes < 0x400 {
                SizeUnit::Bytes
            } else if bytes < 0x10_0000 {
                SizeUnit::KB
            } else if bytes < 0x4000_0000 {
                SizeUnit::MB
            } else if bytes < 0x100_0000_0000 {
                SizeUnit::GB
            } else {
                SizeUnit::TB
            },
            SizeUnit::Bytes => SizeUnit::Bytes,
            SizeUnit::KB => SizeUnit::KB,
            SizeUnit::MB => SizeUnit::MB,
            SizeUnit::GB => SizeUnit::GB,
            SizeUnit::TB => SizeUnit::TB,
        }
    }

    /// How many bytes make one of this unit.
    pub fn bytes(&self) -> (n: u64)
        ensures
            n == unit_bytes(*self),
            n >= 1,
    {
        match self {
            SizeUnit::Auto => 1,
            SizeUnit::Bytes => 1,
            SizeUnit::KB => 0x400,
            SizeUnit::MB => 0x10_0000,
            SizeUnit::GB => 0x4000_0000,
            SizeUnit::TB => 0x100_0000_0000,
        }
    }

    /// The abbreviation that follows a size in this unit.
    pub fn suffix(&self) -> (s: &'static str)
        ensures
            s@ == match self {
                SizeUnit::Auto => "B"@,
                SizeUnit::Bytes => "B"@,
                SizeUnit::KB => "kB"@,
                SizeUnit::MB => "MB"@,
                SizeUnit::GB => "GB"@,
                SizeUnit::TB => "TB"@,
            },
    {
        match self {
            SizeUnit::Auto => "B",
            SizeUnit::Bytes => "B",
            SizeUnit::KB => "kB",
            SizeUnit::MB => "MB",
            SizeUnit::GB => "GB",
            SizeUnit::TB => "TB",
        }
    }
}

/// The kind of an entry of a directory.
#[derive(Debug, Clone, Copy, PartialEq, Eq, Hash)]
pub enum FileKind {
    File,
    Directory,
    SymlinkFile,
    SymlinkDirectory,
    Executable,
    BrokenSymlink,
}

/// The word for a kind, as configurations and contexts have it.
pub open spec fn file_kind_name(kind: FileKind) -> Seq<char> {
    match kind {
        FileKind::File => "file"@,
        FileKind::Directory => "directory"@,
        FileKind::SymlinkFile => "symlink_file"@,
        FileKind::SymlinkDirectory => "symlink_directory"@,
        FileKind::Executable => "executable"@,
        FileKind::BrokenSymlink => "broken_symlink"@,
    }
}

/// The kind that a word stands for.
pub open spec fn file_kind_named(name: Seq<char>) -> Option<FileKind> {
    if name == "file"@ {
        Some(FileKind::File)
    } else if name == "directory"@ {
        Some(FileKind::Directory)
    } else if name == "symlink_file"@ {
        Some(FileKind::SymlinkFile)
    } else if name == "symlink_directory"@ {
        Some(FileKind::SymlinkDirectory)
    } else if name == "executable"@ {
        Some(FileKind::Executable)
    } else if name == "broken_symlink"@ {
        Some(FileKind::BrokenSymlink)
    } else {
        None
    }
}

/// The kind of an entry, from what the file system says of it. A symbolic
/// link is told by its target: a directory, anything else, or nothing when
/// the target cannot be read (`target_is_dir` is `None`). Of the rest, a
/// directory comes first, then a file with any execute bit set.
pub open spec fn file_kind_of(
    is_symlink: bool,
    target_is_dir: Option<bool>,
    is_dir: bool,
    mode: u32,
) -> FileKind {
    if is_symlink {
        match target_is_dir {
            Some(true) => FileKind::SymlinkDirectory,
            Some(false) => FileKind::SymlinkFile,
            None => FileKind::BrokenSymlink,
        }
    } else if is_dir {
        FileKind::Directory
    } else if mode & 0o111 != 0 {
        FileKind::Executable
    } else {
        FileKind::File
    }
}

impl FileKind {
    /// The word for this kind.
    pub fn to_string(&self) -> (s: String)
        ensures
            s@ == file_kind_name(*self),
    {
        match self {
            FileKind::File => "file".to_owned(),
            FileKind::Directory => "directory".to_owned(),
            FileKind::SymlinkFile => "symlink_file".to_owned(),
            FileKind::SymlinkDirectory => "symlink_directory".to_owned(),
            FileKind::Executable => "executable".to_owned(),
            FileKind::BrokenSymlink => "broken_symlink".to_owned(),
        }
    }

    /// The kind that a word of a configuration stands for.
    pub fn from_name(name: &str) -> (r: Option<FileKind>)
        ensures
            r == file_kind_named(name@),
    {
        if same_text(name, "file") {
            Some(FileKind::File)
        } else if same_text(name, "directory") {
            Some(FileKind::Directory)
        } else if same_text(name, "symlink_file") {
            Some(FileKind::SymlinkFile)
        } else if same_text(name, "symlink_directory") {
            Some(FileKind::SymlinkDirectory)
        } else if same_text(name, "executable") {
            Some(FileKind::Executable)
        } else if same_text(name, "broken_symlink") {
            Some(FileKind::BrokenSymlink)
        } else {
            None
        }
    }

    /// The kind of an entry, from what the file system says of it.
    pub fn from_metadata(
        is_symlink: bool,
        target_is_dir: Option<bool>,
        is_dir: bool,
        mode: u32,
    ) -> (kind: FileKind)
        ensures
            kind == file_kind_of(is_symlink, target_is_dir, is_dir, mode),
    {
        if is_symlink {
            match target_is_dir {
                Some(true) => FileKind::SymlinkDirectory,
                Some(false) => FileKind::SymlinkFile,
                None => FileKind::BrokenSymlink,
            }
        } else if is_dir {
            FileKind::Directory
        } else if mode & 0o111 != 0 {
            FileKind::Executable
        } else {
            FileKind::File
        }
    }
}

/// A relation between the value of a variable and a fixed text.
#[derive(Debug, Clone, Copy, PartialEq, Eq)]
pub enum Op {
    Equal,
    Greater,
    Less,
    GreaterEqual,
    LessEqual,
}

/// The relation that a word or sign stands for, from its lower-case form.
pub open spec fn op_named(lower: Seq<char>) -> Option<Op> {
    if lower == "="@ || lower == "eq"@ {
        Some(Op::Equal)
    } else if lower == ">"@ || lower == "gt"@ {
        Some(Op::Greater)
    } else if lower == "<"@ || lower == "lt"@ {
        Some(Op::Less)
    } else if lower == ">="@ || lower == "gte"@ {
        Some(Op::GreaterEqual)
    } else if lower == "<="@ || lower == "lte"@ {
        Some(Op::LessEqual)
    } else {
        None
    }
}

impl Op {
    /// The relation that a word or sign of a configuration stands for.
    pub fn from_name(name: &str) -> (r: Option<Op>)
        ensures
            r == op_named(unicode_lowercase(name@)),
    {
        let lowered = to_lowercase(name);
        let lower = lowered.as_str();
        if same_text(lower, "=") || same_text(lower, "eq") {
            Some(Op::Equal)
        } else if same_text(lower, ">") || same_text(lower, "gt") {
            Some(Op::Greater)
        } else if same_text(lower, "<") || same_text(lower, "lt") {
            Some(Op::Less)
        } else if same_text(lower, ">=") || same_text(lower, "gte") {
            Some(Op::GreaterEqual)
        } else if same_text(lower, "<=") || same_text(lower, "lte") {
            Some(Op::LessEqual)
        } else {
            None
        }
    }
}

/// Whether `a` comes before `b` in the order of strings: at the first
/// position where they differ, `a` has the character of the smaller code
/// point; or `a` ends there and `b` goes on.
pub open spec fn text_before(a: Seq<char>, b: Seq<char>) -> bool
    decreases a.len(),
{
    if b.len() == 0 {
        false
    } else if a.len() == 0 {
        true
    } else if a[0] != b[0] {
        a[0] < b[0]
    } else {
        text_before(a.subrange(1, a.len() as int), b.subrange(1, b.len() as int))
    }
}

/// Whether `value` stands in the relation `op` to `threshold`. Equality is
/// equality of texts. The order is that of integers where both texts are
/// decimal numerals that fit 64 bits, and that of strings otherwise.
pub open spec fn relation_holds(op: Op, value: Seq<char>, threshold: Seq<char>) -> bool {
    match op {
        Op::Equal => value == threshold,
        _ => match (signed_value(value), signed_value(threshold)) {
            (Some(a), Some(b)) => match op {
                Op::Greater => a > b,
                Op::Less => a < b,
                Op::GreaterEqual => a >= b,
                _ => a <= b,
            },
            _ => match op {
                Op::Greater => text_before(threshold, value),
                Op::Less => text_before(value, threshold),
                Op::GreaterEqual => !text_before(value, threshold),
                _ => !text_before(threshold, value),
            },
        },
    }
}

/// Whether `a` comes before `b` in the order of strings.
pub fn comes_before(a: &Vec<char>, b: &Vec<char>) -> (r: bool)
    ensures
        r == text_before(a@, b@),
{
    let mut i: usize = 0;
    assert(a@.subrange(0, a.len() as int) =~= a@);
    assert(b@.subrange(0, b.len() as int) =~= b@);
    while i < a.len() && i < b.len()
        invariant
            i <= a.len(),
            i <= b.len(),
            text_before(a@.subrange(i as int, a.len() as int), b@.subrange(i as int, b.len() as int))
                == text_before(a@, b@),
        decreases a.len() - i,
    {
        let x = char_at(a, i);
        let y = char_at(b, i);
        proof {
            let ra = a@.subrange(i as int, a.len() as int);
            let rb = b@.subrange(i as int, b.len() as int);
            assert(ra[0] == x && rb[0] == y);
            assert(ra.subrange(1, ra.len() as int) =~= a@.subrange(i + 1, a.len() as int));
            assert(rb.subrange(1, rb.len() as int) =~= b@.subrange(i + 1, b.len() as int));
        }
        if x != y {
            return x < y;
        }
        i += 1;
    }
    i < b.len()
}

/// A rule: when the variable stands in the relation to the value, the rule
/// applies and gives its result.
#[derive(Debug, Clone)]
pub struct Condition<T> {
    pub variable: String,
    pub op: Op,
    pub value: String,
    pub result: T,
}

/// Whether a rule applies in `ctx`: its variable is bound, and the text of
/// what it is bound to stands in the relation to the value of the rule.
pub open spec fn applies<T>(rule: Condition<T>, ctx: ContextView) -> bool {
    ctx.contains_key(rule.variable@) && relation_holds(
        rule.op,
        value_text(ctx[rule.variable@]),
        rule.value@,
    )
}

/// The position of the first rule from `i` on that applies in `ctx`, or the
/// number of rules if none does.
pub open spec fn first_applying<T>(rules: Seq<Condition<T>>, ctx: ContextView, i: int) -> int
    decreases rules.len() - i,
{
    if i < 0 || i >= rules.len() {
        rules.len() as int
    } else if applies(rules[i], ctx) {
        i
    } else {
        first_applying(rules, ctx, i + 1)
    }
}

impl<T> Condition<T> {
    /// Whether this rule applies in `ctx`.
    pub fn evaluate(&self, ctx: &Context) -> (r: bool)
        ensures
            r == applies(*self, ctx@),
    {
        let value = match ctx.get(self.variable.as_str()) {
            Some(v) => v.to_string(),
            None => {
                return false;
            },
        };
        match self.op {
            Op::Equal => same_text(value.as_str(), self.value.as_str()),
            _ => {
                let a = chars_of(value.as_str());
                let b = chars_of(self.value.as_str());
                proof {
                    assert(a@.subrange(0, a.len() as int) =~= a@);
                    assert(b@.subrange(0, b.len() as int) =~= b@);
                }
                match (parse_signed(&a, 0, a.len()), parse_signed(&b, 0, b.len())) {
                    (Some(x), Some(y)) => match self.op {
                        Op::Greater => x > y,
                        Op::Less => x < y,
                        Op::GreaterEqual => x >= y,
                        _ => x <= y,
                    },
                    _ => match self.op {
                        Op::Greater => comes_before(&b, &a),
                        Op::Less => comes_before(&a, &b),
                        Op::GreaterEqual => !comes_before(&a, &b),
                        _ => !comes_before(&b, &a),
                    },
                }
            },
        }
    }
}

/// A rule that gives a style.
pub type ConditionalRule = Condition<Style>;

/// The position of the first rule that applies in `ctx`, or the number of
/// rules if none does.
pub fn find_applying<T>(rules: &Vec<Condition<T>>, ctx: &Context) -> (k: usize)
    ensures
        k == first_applying(rules@, ctx@, 0),
        k <= rules.len(),
        k < rules.len() ==> applies(rules@[k as int], ctx@),
{
    let mut k: usize = 0;
    while k < rules.len()
        invariant
            k <= rules.len(),
            first_applying(rules@, ctx@, k as int) == first_applying(rules@, ctx@, 0),
        decreases rules.len() - k,
    {
        if rules[k].evaluate(ctx) {
            return k;
        }
        k += 1;
    }
    k
}

/// The icon of an entry: that of the first rule that applies, and a default.
#[derive(Debug, Clone)]
pub struct ListIconConfig {
    pub default: String,
    pub conditions: Vec<Condition<String>>,
}

impl Default for ListIconConfig {
    fn default() -> (c: ListIconConfig)
        ensures
            c.default@ == "f"@,
            c.conditions@.len() == 1,
            c.conditions@[0].variable@ == "kind"@,
            c.conditions@[0].op == Op::Equal,
            c.conditions@[0].value@ == "directory"@,
            c.conditions@[0].result@ == "d"@,
    {
        let mut conditions: Vec<Condition<String>> = Vec::new();
        conditions.push(
            Condition {
                variable: "kind".to_owned(),
                op: Op::Equal,
                value: "directory".to_owned(),
                result: "d".to_owned(),
            },
        );
        ListIconConfig { default: "f".to_owned(), conditions }
    }
}

impl ListIconConfig {
    /// The icon for an entry with context `ctx`.
    pub fn resolve(&self, ctx: &Context) -> (icon: String)
        ensures
            icon@ == ({
                let k = first_applying(self.conditions@, ctx@, 0);
                if k < self.conditions@.len() {
                    self.conditions@[k].result@
                } else {
                    self.default@
                }
            }),
    {
        let k = find_applying(&self.conditions, ctx);
        if k < self.conditions.len() {
            self.conditions[k].result.clone()
        } else {
            self.default.clone()
        }
    }
}

/// The style of a field: that of the first rule that applies, and a
/// default.
#[derive(Debug, Clone)]
pub struct FieldStyle {
    pub default: Option<Style>,
    pub conditions: Vec<Condition<Style>>,
}

/// The style that a field style gives an entry with context `ctx`: that of
/// the first rule that applies, else the default, else no style at all.
pub open spec fn field_prefix(field: FieldStyle, ctx: ContextView) -> Seq<char> {
    let k = first_applying(field.conditions@, ctx, 0);
    if k < field.conditions@.len() {
        style_prefix(field.conditions@[k].result)
    } else {
        match field.default {
            Some(style) => style_prefix(style),
            None => Seq::empty(),
        }
    }
}

impl FieldStyle {
    /// `value` in the style for an entry with context `ctx`.
    pub fn resolve(&self, value: &str, ctx: &Context) -> (out: String)
        ensures
            out@ == styled(field_prefix(*self, ctx@), value@),
    {
        let k = find_applying(&self.conditions, ctx);
        if k < self.conditions.len() {
            self.conditions[k].result.apply(value)
        } else {
            match &self.default {
                Some(style) => style.apply(value),
                None => value.to_owned(),
            }
        }
    }
}

/// How a directory is listed.
pub struct ListConfig {
    /// The templates of the columns.
    pub format: Vec<String>,
    /// The least number of spaces between two columns.
    pub padding: usize,
    pub icons: ListIconConfig,
    /// The styles of the fields, by the name of the field.
    pub style: Named<FieldStyle>,
    pub size_unit: SizeUnit,
    pub created_fmt: String,
    pub modified_fmt: String,
    pub accessed_fmt: String,
}

impl Default for ListConfig {
    fn default() -> (c: ListConfig)
        ensures
            c.format@.len() == 5,
            c.format@[0]@ == "{kind}"@,
            c.format@[1]@ == "{name}"@,
            c.format@[2]@ == "{permissions}"@,
            c.format@[3]@ == "{size}"@,
            c.format@[4]@ == "{modified}"@,
            c.padding == 2,
            c.style@ == Map::<Seq<char>, FieldStyle>::empty(),
            c.size_unit == SizeUnit::Auto,
            c.created_fmt@ == "%b %d %H:%M"@,
            c.modified_fmt@ == "%b %d %H:%M"@,
            c.accessed_fmt@ == "%b %d %H:%M"@,
    {
        let mut format: Vec<String> = Vec::new();
        format.push("{kind}".to_owned());
        format.push("{name}".to_owned());
        format.push("{permissions}".to_owned());
        format.push("{size}".to_owned());
        format.push("{modified}".to_owned());
        ListConfig {
            format,
            padding: 2,
            icons: ListIconConfig::default(),
            style: Named::new(),
            size_unit: SizeUnit::Auto,
            created_fmt: "%b %d %H:%M".to_owned(),
            modified_fmt: "%b %d %H:%M".to_owned(),
            accessed_fmt: "%b %d %H:%M".to_owned(),
        }
    }
}

impl ListConfig {
    /// `value` in the style that the configuration gives the field `name`
    /// for an entry with context `ctx`; `value` as it is where the field has
    /// no style.
    pub fn apply_field_style(&self, name: &str, value: &str, ctx: &Context) -> (out: String)
        ensures
            out@ == if self.style@.contains_key(name@) {
                styled(field_prefix(self.style@[name@], ctx@), value@)
            } else {
                value@
            },
    {
        match self.style.get(name) {
            Some(field) => field.resolve(value, ctx),
            None => value.to_owned(),
        }
    }
}

/// The whole configuration.
pub struct Config {
    pub ls: ListConfig,
}

impl Default for Config {
    fn default() -> (c: Config)
        ensures
            c.ls.padding == 2,
            c.ls.size_unit == SizeUnit::Auto,
    {
        Config { ls: ListConfig::default() }
    }
}

} // verus!
