//! The listing of installed packages, sorted into what to update and what to leave.
//!
//! A listing is read line by line. A line that is not indented begins a package record
//! and its first token names the package; indented lines name the binaries of the record
//! above and are passed over. A record whose line holds `(/` was installed from a path on
//! this machine and is left alone. Nothing else decides: no package is left out for its
//! name.

use crate::command::{strings, texts, CommandSpec, CommandView};
use crate::decode::{decode, decoded};
use crate::text::{
    first_token, first_token_of, indented, is_blank, is_indent, is_indented, lemma_prefix_len, lines_of,
    prefix_len, split_lines,
};
use vstd::prelude::*;

verus! {

/// What a line of the listing says.
pub enum LineKind {
    /// No package record starts here: the line is indented or has no first token.
    Ignored,
    /// A package from a registry.
    Registry,
    /// A package installed from a local path.
    Local,
}

/// `line` holds an opening parenthesis directly followed by a slash.
pub open spec fn has_path_marker(line: Seq<char>) -> bool {
    exists|i: int| 0 <= i < line.len() - 1 && #[trigger] line[i] == '(' && line[i + 1] == '/'
}

/// What `line` says. A record is local where its line holds the path marker anywhere,
/// and from a registry otherwise.
pub open spec fn kind_of(line: Seq<char>) -> LineKind {
    if is_indented(line) || first_token_of(line).len() == 0 {
        LineKind::Ignored
    } else if has_path_marker(line) {
        LineKind::Local
    } else {
        LineKind::Registry
    }
}

/// The lines that begin no record are the empty ones and those that begin with a
/// blank of any kind.
pub proof fn lemma_ignored_lines(line: Seq<char>)
    ensures
        kind_of(line) is Ignored <==> line.len() == 0 || is_blank(line[0]),
{
    let stop = |c: char| is_blank(c);
    lemma_prefix_len(line, stop);
    if line.len() > 0 {
        assert(is_indent(line[0]) ==> is_blank(line[0]));
        if is_blank(line[0]) {
            assert(prefix_len(line, stop) == 0);
        } else {
            assert(prefix_len(line, stop) >= 1);
        }
    }
}

/// The package names on the lines of the given kind, in the order of the lines.
pub open spec fn names_of(lines: Seq<Seq<char>>, kind: LineKind) -> Seq<Seq<char>> {
    lines.filter(|line: Seq<char>| kind_of(line) == kind).map_values(
        |line: Seq<char>| first_token_of(line),
    )
}

/// A name taken from a record is never empty and holds no blank, and there is one name
/// for each line of the kind, no more.
pub proof fn lemma_names(lines: Seq<Seq<char>>, kind: LineKind)
    requires
        !(kind is Ignored),
    ensures
        names_of(lines, kind).len() <= lines.len(),
        forall|i: int|
            0 <= i < names_of(lines, kind).len() ==> (#[trigger] names_of(lines, kind)[i]).len()
                > 0,
        forall|i: int, j: int|
            0 <= i < names_of(lines, kind).len() && 0 <= j < names_of(lines, kind)[i].len()
                ==> !is_blank(#[trigger] names_of(lines, kind)[i][j]),
{
    let keep = |line: Seq<char>| kind_of(line) == kind;
    let stop = |c: char| is_blank(c);
    let kept = lines.filter(keep);
    lines.lemma_filter_len(keep);
    assert forall|i: int| 0 <= i < names_of(lines, kind).len() implies (#[trigger] names_of(
        lines,
        kind,
    )[i]).len() > 0 && forall|j: int|
        0 <= j < names_of(lines, kind)[i].len() ==> !is_blank(names_of(lines, kind)[i][j]) by {
        lines.lemma_filter_pred(keep, i);
        assert(kind_of(kept[i]) == kind);
        assert(names_of(lines, kind)[i] == first_token_of(kept[i]));
        lemma_prefix_len(kept[i], stop);
        assert forall|j: int| 0 <= j < first_token_of(kept[i]).len() implies !is_blank(
            first_token_of(kept[i])[j],
        ) by {
            assert(!stop(kept[i][j]));
        }
    }
}

/// The names of two runs of lines, one after the other, are the names of the first run
/// followed by those of the second: the order of the lines is kept and no two records
/// are merged.
pub proof fn lemma_names_in_order(first: Seq<Seq<char>>, second: Seq<Seq<char>>, kind: LineKind)
    ensures
        names_of(first + second, kind) == names_of(first, kind) + names_of(second, kind),
{
    let keep = |line: Seq<char>| kind_of(line) == kind;
    let name = |line: Seq<char>| first_token_of(line);
    Seq::filter_distributes_over_add(first, second, keep);
    assert((first.filter(keep) + second.filter(keep)).map_values(name) =~= first.filter(
        keep,
    ).map_values(name) + second.filter(keep).map_values(name));
}

/// What a [`ParsedPackageList`] stands for.
pub struct PackageListView {
    pub to_update: Seq<Seq<char>>,
    pub skipped: Seq<Seq<char>>,
}

/// The reading of a whole listing. Nothing is merged, reordered or changed in case.
pub open spec fn parsed(output: Seq<char>) -> PackageListView {
    PackageListView {
        to_update: names_of(lines_of(output), LineKind::Registry),
        skipped: names_of(lines_of(output), LineKind::Local),
    }
}

/// The packages of a listing: those to update and those passed over, each in the order
/// of the listing.
#[derive(Debug, PartialEq, Eq)]
pub struct ParsedPackageList {
    pub to_update: Vec<String>,
    pub skipped: Vec<String>,
}

impl View for ParsedPackageList {
    type V = PackageListView;

    open spec fn view(&self) -> PackageListView {
        PackageListView {
            to_update: self.to_update.deep_view(),
            skipped: self.skipped.deep_view(),
        }
    }
}

/// Whether `line` holds `(/`.
pub fn path_marker(line: &str) -> (found: bool)
    ensures
        found == has_path_marker(line@),
{
    let mut after_paren = false;
    for c in it: line.chars()
        invariant
            it.seq() == line@,
            after_paren == (it.index() > 0 && line@[it.index() - 1] == '('),
            forall|i: int|
                0 <= i < it.index() - 1 ==> !(#[trigger] line@[i] == '(' && line@[i + 1] == '/'),
    {
        if after_paren && c == '/' {
            assert(line@[it.index() - 1] == '(' && line@[it.index() - 1 + 1] == '/');
            return true;
        }
        after_paren = c == '(';
    }
    false
}

/// What one more line adds to the names before it.
proof fn lemma_names_step(lines: Seq<Seq<char>>, kind: LineKind, i: int)
    requires
        0 <= i < lines.len(),
    ensures
        names_of(lines.take(i + 1), kind) == if kind_of(lines[i]) == kind {
            names_of(lines.take(i), kind).push(first_token_of(lines[i]))
        } else {
            names_of(lines.take(i), kind)
        },
{
    reveal(Seq::filter);
    assert(lines.take(i + 1).drop_last() =~= lines.take(i));
    let keep = |line: Seq<char>| kind_of(line) == kind;
    let name = |line: Seq<char>| first_token_of(line);
    if kind_of(lines[i]) == kind {
        assert(lines.take(i + 1).filter(keep) == lines.take(i).filter(keep).push(lines[i]));
        assert(lines.take(i).filter(keep).push(lines[i]).map_values(name) =~= lines.take(
            i,
        ).filter(keep).map_values(name).push(first_token_of(lines[i])));
    }
}

/// Reads a listing.
pub fn parse(output: &str) -> (list: ParsedPackageList)
    ensures
        list@ == parsed(output@),
{
    let lines = split_lines(output);
    let mut to_update: Vec<String> = Vec::new();
    let mut skipped: Vec<String> = Vec::new();
    let ghost all = lines.deep_view();
    proof {
        reveal(Seq::filter);
        assert(all.take(0) =~= Seq::<Seq<char>>::empty());
        assert(to_update.deep_view() =~= names_of(all.take(0), LineKind::Registry));
        assert(skipped.deep_view() =~= names_of(all.take(0), LineKind::Local));
    }
    for i in 0..lines.len()
        invariant
            all == lines.deep_view(),
            to_update.deep_view() == names_of(all.take(i as int), LineKind::Registry),
            skipped.deep_view() == names_of(all.take(i as int), LineKind::Local),
    {
        proof {
            lemma_names_step(all, LineKind::Registry, i as int);
            lemma_names_step(all, LineKind::Local, i as int);
        }
        let line = lines[i].as_str();
        if !indented(line) {
            let name = first_token(line);
            if !name.as_str().is_empty() {
                if path_marker(line) {
                    let ghost before = skipped.deep_view();
                    skipped.push(name);
                    assert(skipped.deep_view() =~= before.push(first_token_of(all[i as int])));
                } else {
                    let ghost before = to_update.deep_view();
                    to_update.push(name);
                    assert(to_update.deep_view() =~= before.push(first_token_of(all[i as int])));
                }
            }
        }
    }
    proof {
        assert(all.take(lines.len() as int) =~= all);
    }
    ParsedPackageList { to_update, skipped }
}

/// Reads the listing in a command's captured output.
pub fn parse_output(stdout: &[u8]) -> (list: ParsedPackageList)
    ensures
        list@ == parsed(decoded(stdout@)),
{
    let text = decode(stdout);
    parse(text.as_str())
}

/// The command that brings the package `name` up to date.
pub open spec fn update_command_of(name: Seq<char>) -> CommandView {
    CommandView { program: "cargo"@, arguments: seq!["install"@, name] }
}

/// The line that tells of a package passed over.
pub open spec fn skip_notice_of(name: Seq<char>) -> Seq<char> {
    "Skipping "@ + name + " (local install)"@
}

/// The command that brings the package `name` up to date.
pub fn update_command(name: &str) -> (command: CommandSpec)
    ensures
        command@ == update_command_of(name@),
{
    proof {
        reveal_strlit("cargo");
    }
    let items = ["install", name];
    let arguments = strings(&items);
    assert(texts(items@) =~= seq!["install"@, name@]);
    CommandSpec::fixed("cargo", arguments)
}

/// The line that tells of the package `name` passed over.
pub fn skip_notice(name: &str) -> (line: String)
    ensures
        line@ == skip_notice_of(name@),
{
    let mut line = "Skipping ".to_owned();
    line.append(name);
    line.append(" (local install)");
    line
}

impl ParsedPackageList {
    /// One update command for each package to update, in order.
    pub fn update_commands(&self) -> (commands: Vec<CommandSpec>)
        ensures
            commands.deep_view() == self@.to_update.map_values(
                |name: Seq<char>| update_command_of(name),
            ),
    {
        let mut commands: Vec<CommandSpec> = Vec::new();
        let ghost names = self.to_update.deep_view();
        let ghost make = |name: Seq<char>| update_command_of(name);
        assert(commands.deep_view() =~= names.take(0).map_values(make));
        for i in 0..self.to_update.len()
            invariant
                names == self.to_update.deep_view(),
                make == |name: Seq<char>| update_command_of(name),
                commands.deep_view() == names.take(i as int).map_values(make),
        {
            let ghost before = commands.deep_view();
            commands.push(update_command(self.to_update[i].as_str()));
            assert(commands.deep_view() =~= before.push(update_command_of(names[i as int])));
            assert(names.take(i + 1).map_values(make) =~= names.take(i as int).map_values(
                make,
            ).push(update_command_of(names[i as int])));
        }
        assert(names.take(self.to_update.len() as int) =~= names);
        commands
    }

    /// One notice for each package passed over, in order.
    pub fn skip_notices(&self) -> (lines: Vec<String>)
        ensures
            lines.deep_view() == self@.skipped.map_values(|name: Seq<char>| skip_notice_of(name)),
    {
        let mut lines: Vec<String> = Vec::new();
        let ghost names = self.skipped.deep_view();
        let ghost make = |name: Seq<char>| skip_notice_of(name);
        assert(lines.deep_view() =~= names.take(0).map_values(make));
        for i in 0..self.skipped.len()
            invariant
                names == self.skipped.deep_view(),
                make == |name: Seq<char>| skip_notice_of(name),
                lines.deep_view() == names.take(i as int).map_values(make),
        {
            let ghost before = lines.deep_view();
            lines.push(skip_notice(self.skipped[i].as_str()));
            assert(lines.deep_view() =~= before.push(skip_notice_of(names[i as int])));
            assert(names.take(i + 1).map_values(make) =~= names.take(i as int).map_values(
                make,
            ).push(skip_notice_of(names[i as int])));
        }
        assert(names.take(self.skipped.len() as int) =~= names);
        lines
    }
}

/// Reading one listing twice gives one result: the reading depends on the text alone.
pub proof fn lemma_parse_is_a_function(
    output: Seq<char>,
    first: ParsedPackageList,
    second: ParsedPackageList,
)
    requires
        first@ == parsed(output),
        second@ == parsed(output),
    ensures
        first@ == second@,
        first.to_update.deep_view() == second.to_update.deep_view(),
        first.skipped.deep_view() == second.skipped.deep_view(),
{
}

} // verus!
