//! A command line that has not been run yet: a program and its arguments.

use vstd::prelude::*;
use vstd::std_specs::cmp::PartialEqSpecImpl;

verus! {

/// What a [`CommandSpec`] stands for: the program's name and the arguments in order.
pub struct CommandView {
    pub program: Seq<char>,
    pub arguments: Seq<Seq<char>>,
}

/// The members of `parts` with one space between each two neighbours.
pub open spec fn joined(parts: Seq<Seq<char>>) -> Seq<char>
    decreases parts.len(),
{
    if parts.len() == 0 {
        Seq::empty()
    } else if parts.len() == 1 {
        parts[0]
    } else {
        joined(parts.drop_last()) + seq![' '] + parts.last()
    }
}

impl CommandView {
    /// The form in which a command is shown: the program, one space, and the arguments
    /// joined by single spaces. With no arguments the space still stands.
    pub open spec fn display(self) -> Seq<char> {
        self.program + seq![' '] + joined(self.arguments)
    }

    /// The same program with `extra` after its own arguments.
    pub open spec fn with_arguments(self, extra: Seq<Seq<char>>) -> CommandView {
        CommandView { program: self.program, arguments: self.arguments + extra }
    }

    /// The lines shown before the command runs: an empty line, a rule, the command
    /// behind a dollar sign, and the rule again.
    pub open spec fn banner(self) -> Seq<Seq<char>> {
        seq![
            Seq::empty(),
            "========================"@,
            "$ "@ + self.display(),
            "========================"@,
        ]
    }
}

/// The texts of `items`.
pub open spec fn texts(items: Seq<&str>) -> Seq<Seq<char>> {
    items.map_values(|item: &str| item@)
}

/// Owned copies of `items`.
pub fn strings(items: &[&str]) -> (owned: Vec<String>)
    ensures
        owned.deep_view() == texts(items@),
{
    let mut owned: Vec<String> = Vec::new();
    assert(owned.deep_view() =~= texts(items@.take(0)));
    for i in 0..items.len()
        invariant
            owned.deep_view() == texts(items@.take(i as int)),
    {
        let ghost before = owned.deep_view();
        owned.push(items[i].to_owned());
        assert(owned.deep_view() =~= before.push(items@[i as int]@));
        assert(texts(items@.take(i + 1)) =~= texts(items@.take(i as int)).push(items@[i as int]@));
    }
    assert(items@.take(items.len() as int) =~= items@);
    owned
}

/// A program and its ordered arguments. The program's name is never empty, and nothing
/// changes a value once it is made.
#[derive(Debug)]
pub struct CommandSpec {
    program: String,
    arguments: Vec<String>,
}

impl View for CommandSpec {
    type V = CommandView;

    closed spec fn view(&self) -> CommandView {
        CommandView { program: self.program@, arguments: self.arguments.deep_view() }
    }
}

impl DeepView for CommandSpec {
    type V = CommandView;

    open spec fn deep_view(&self) -> CommandView {
        self@
    }
}

impl CommandSpec {
    #[verifier::type_invariant]
    spec fn named(self) -> bool {
        self.program@.len() > 0
    }

    /// A command for `program` with `arguments`, unless `program` is empty.
    pub fn new(program: String, arguments: Vec<String>) -> (made: Option<CommandSpec>)
        ensures
            made is None <==> program@.len() == 0,
            made matches Some(c) ==> c@ == (CommandView {
                program: program@,
                arguments: arguments.deep_view(),
            }),
    {
        if program.as_str().is_empty() {
            None
        } else {
            Some(CommandSpec { program, arguments })
        }
    }

    /// A command whose program is known not to be empty.
    pub(crate) fn fixed(program: &str, arguments: Vec<String>) -> (made: CommandSpec)
        requires
            program@.len() > 0,
        ensures
            made@ == (CommandView { program: program@, arguments: arguments.deep_view() }),
    {
        CommandSpec { program: program.to_owned(), arguments }
    }

    /// The program's name.
    pub fn program(&self) -> (name: &str)
        ensures
            name@ == self@.program,
            name@.len() > 0,
    {
        proof {
            use_type_invariant(self);
        }
        self.program.as_str()
    }

    /// The arguments in order.
    pub fn arguments(&self) -> (list: &Vec<String>)
        ensures
            list.deep_view() == self@.arguments,
    {
        &self.arguments
    }

    /// The form in which the command is shown.
    pub fn display(&self) -> (text: String)
        ensures
            text@ == self@.display(),
    {
        let mut text = self.program.clone();
        proof {
            reveal_strlit(" ");
        }
        text.append(" ");
        let ghost head = self.program@ + seq![' '];
        let ghost parts = self.arguments.deep_view();
        assert(text@ =~= head);
        assert(parts.take(0) =~= Seq::<Seq<char>>::empty());
        for i in 0..self.arguments.len()
            invariant
                parts == self.arguments.deep_view(),
                head == self.program@ + seq![' '],
                text@ == head + joined(parts.take(i as int)),
        {
            proof {
                reveal_strlit(" ");
                assert(parts.take(i + 1).drop_last() =~= parts.take(i as int));
                assert(joined(parts.take(i + 1)) == if i == 0 {
                    parts[0]
                } else {
                    joined(parts.take(i as int)) + seq![' '] + parts[i as int]
                });
            }
            if i > 0 {
                text.append(" ");
            }
            text.append(self.arguments[i].as_str());
            assert(text@ =~= head + joined(parts.take(i + 1)));
        }
        assert(parts.take(self.arguments.len() as int) =~= parts);
        text
    }

    /// The lines to show before the command runs.
    pub fn banner(&self) -> (lines: Vec<String>)
        ensures
            lines.deep_view() == self@.banner(),
    {
        let mut lines: Vec<String> = Vec::new();
        lines.push(String::new());
        lines.push("========================".to_owned());
        let mut prompt = "$ ".to_owned();
        let shown = self.display();
        prompt.append(shown.as_str());
        lines.push(prompt);
        lines.push("========================".to_owned());
        assert(lines.deep_view() =~= self@.banner());
        lines
    }

    /// The same program with `extra` after its own arguments.
    pub fn with_arguments(&self, extra: &Vec<String>) -> (longer: CommandSpec)
        ensures
            longer@ == self@.with_arguments(extra.deep_view()),
    {
        proof {
            use_type_invariant(self);
        }
        let mut arguments = self.arguments.clone();
        assert(arguments.deep_view() =~= self.arguments.deep_view());
        for i in 0..extra.len()
            invariant
                arguments.deep_view() == self.arguments.deep_view() + extra.deep_view().take(
                    i as int,
                ),
        {
            let ghost before = arguments.deep_view();
            arguments.push(extra[i].clone());
            assert(arguments.deep_view() =~= before.push(extra.deep_view()[i as int]));
            assert(extra.deep_view().take(i + 1) =~= extra.deep_view().take(i as int).push(
                extra.deep_view()[i as int],
            ));
        }
        assert(extra.deep_view().take(extra.len() as int) =~= extra.deep_view());
        CommandSpec { program: self.program.clone(), arguments }
    }
}

impl Clone for CommandSpec {
    fn clone(&self) -> (copy: Self)
        ensures
            copy@ == self@,
    {
        proof {
            use_type_invariant(self);
        }
        let arguments = self.arguments.clone();
        assert(arguments.deep_view() =~= self.arguments.deep_view());
        CommandSpec { program: self.program.clone(), arguments }
    }
}

impl PartialEq for CommandSpec {
    fn eq(&self, other: &Self) -> (same: bool) {
        let same_program = self.program == other.program;
        if !same_program || self.arguments.len() != other.arguments.len() {
            assert(self@.program != other@.program || self@.arguments.len()
                != other@.arguments.len());
            return false;
        }
        for i in 0..self.arguments.len()
            invariant
                self.arguments.len() == other.arguments.len(),
                self.arguments.deep_view().take(i as int) == other.arguments.deep_view().take(
                    i as int,
                ),
        {
            let same_argument = self.arguments[i] == other.arguments[i];
            if !same_argument {
                assert(self@.arguments[i as int] != other@.arguments[i as int]);
                return false;
            }
            assert(self.arguments.deep_view().take(i + 1) =~= self.arguments.deep_view().take(
                i as int,
            ).push(self.arguments.deep_view()[i as int]));
            assert(other.arguments.deep_view().take(i + 1) =~= other.arguments.deep_view().take(
                i as int,
            ).push(other.arguments.deep_view()[i as int]));
        }
        assert(self.arguments.deep_view().take(self.arguments.len() as int)
            =~= self.arguments.deep_view());
        assert(other.arguments.deep_view().take(self.arguments.len() as int)
            =~= other.arguments.deep_view());
        true
    }
}

impl PartialEqSpecImpl for CommandSpec {
    open spec fn obeys_eq_spec() -> bool {
        true
    }

    open spec fn eq_spec(&self, other: &Self) -> bool {
        self@ == other@
    }
}

} // verus!
