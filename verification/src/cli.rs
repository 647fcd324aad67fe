//! Command-line interface utilities.

use vstd::prelude::*;
use vstd::utf8::encode_utf8;
use crate::dict::{put, Dict};
use crate::text::{after, before, chars_of, parse_text, parsed_or, part, same, split_once, string_of};

verus! {

/// The views of a list of strings.
pub open spec fn texts(v: Seq<String>) -> Seq<Seq<char>> {
    v.map_values(|s: String| s@)
}

/// The views of a list of string slices.
pub open spec fn str_texts(v: Seq<&str>) -> Seq<Seq<char>> {
    v.map_values(|s: &str| s@)
}

/// What has been read of a command line.
pub struct CliState {
    /// The parameters with their values.
    pub parameters: Seq<(Seq<char>, Seq<char>)>,
    /// The options, in order; an option may occur more than once.
    pub options: Seq<Seq<char>>,
    /// The plain arguments, in order.
    pub arguments: Seq<Seq<char>>,
    /// The name of a parameter whose value is the next argument.
    pub pending: Option<Seq<char>>,
}

/// A parsed command line, as mathematical values.
pub struct CommandView {
    pub command: Seq<char>,
    pub parameters: Seq<(Seq<char>, Seq<char>)>,
    pub options: Seq<Seq<char>>,
    pub arguments: Seq<Seq<char>>,
}

/// Whether a name is an option: it is listed as one, or it is listed as
/// parameter or option and the next argument begins with `-`.
pub open spec fn is_option(
    name: Seq<char>,
    next: Seq<char>,
    options: Seq<Seq<char>>,
    paramopts: Seq<Seq<char>>,
) -> bool {
    (paramopts.contains(name) && seq!['-'].is_prefix_of(next)) || options.contains(name)
}

/// What a name that is no option stands for: with `=` a parameter and its
/// value, without it a parameter whose value is the next argument.
pub open spec fn take_parameter(s: CliState, name: Seq<char>) -> CliState {
    match after(name, '=') {
        Some(value) => CliState {
            parameters: put(s.parameters, before(name, '='), value),
            pending: None,
            ..s
        },
        None => CliState { pending: Some(name), ..s },
    }
}

/// Whether a character is in the ASCII range.
pub open spec fn ascii(c: char) -> bool {
    c <= '\u{7f}'
}

/// Whether a character is in the ASCII range.
fn is_ascii(c: char) -> (r: bool)
    ensures
        r == ascii(c),
{
    c <= '\u{7f}'
}

/// The one-letter options in a group such as `-abc`: each ASCII character
/// on its own.
pub open spec fn single_letters(group: Seq<char>) -> Seq<Seq<char>>
    decreases group.len(),
{
    if group.len() == 0 {
        Seq::empty()
    } else {
        single_letters(group.drop_last()) + if ascii(group.last()) {
            seq![seq![group.last()]]
        } else {
            Seq::empty()
        }
    }
}

/// What one argument adds to what was read before it. `next` is the argument
/// after it, or empty for the last one.
pub open spec fn cli_step(
    s: CliState,
    arg: Seq<char>,
    next: Seq<char>,
    options: Seq<Seq<char>>,
    paramopts: Seq<Seq<char>>,
) -> CliState {
    match s.pending {
        Some(name) => CliState { parameters: put(s.parameters, name, arg), pending: None, ..s },
        None => if seq!['-', '-'].is_prefix_of(arg) {
            let name = arg.skip(2);
            if is_option(name, next, options, paramopts) {
                CliState { options: s.options.push(name), ..s }
            } else {
                take_parameter(s, name)
            }
        } else if seq!['-'].is_prefix_of(arg) {
            let name = arg.skip(1);
            if is_option(name, next, options, paramopts) {
                CliState { options: s.options.push(name), ..s }
            } else if encode_utf8(name).len() >= 2 && after(name, '=') is None {
                CliState { options: s.options + single_letters(name), ..s }
            } else {
                take_parameter(s, name)
            }
        } else {
            CliState { arguments: s.arguments.push(arg), ..s }
        },
    }
}

/// What the arguments before position `upto` add up to. The first argument
/// is the command's name and adds nothing.
pub open spec fn cli_fold(
    raw: Seq<Seq<char>>,
    upto: int,
    options: Seq<Seq<char>>,
    paramopts: Seq<Seq<char>>,
) -> CliState
    decreases upto,
{
    if upto <= 1 || upto > raw.len() {
        CliState {
            parameters: Seq::empty(),
            options: Seq::empty(),
            arguments: Seq::empty(),
            pending: None,
        }
    } else {
        cli_step(
            cli_fold(raw, upto - 1, options, paramopts),
            raw[upto - 1],
            if upto < raw.len() {
                raw[upto]
            } else {
                Seq::empty()
            },
            options,
            paramopts,
        )
    }
}

/// The command that a command line stands for. A parameter that is still
/// without a value at the end is an option.
pub open spec fn command_of(
    raw: Seq<Seq<char>>,
    options: Seq<Seq<char>>,
    paramopts: Seq<Seq<char>>,
) -> CommandView {
    let s = cli_fold(raw, raw.len() as int, options, paramopts);
    CommandView {
        command: if raw.len() > 0 {
            raw[0]
        } else {
            Seq::empty()
        },
        parameters: s.parameters,
        options: match s.pending {
            Some(name) => s.options.push(name),
            None => s.options,
        },
        arguments: s.arguments,
    }
}

/// What has been read, as mathematical values.
spec fn state_of(
    parameters: &Dict<String>,
    options: &Vec<String>,
    arguments: &Vec<String>,
    pending: &Option<String>,
) -> CliState {
    CliState {
        parameters: parameters.entries(),
        options: texts(options@),
        arguments: texts(arguments@),
        pending: match pending {
            Some(p) => Some(p@),
            None => None,
        },
    }
}

/// Whether `name` is in `list`.
fn listed(list: &[&str], name: &[char]) -> (r: bool)
    ensures
        r == str_texts(list@).contains(name@),
{
    let mut i: usize = 0;
    while i < list.len()
        invariant
            i <= list.len(),
            forall|j: int| 0 <= j < i ==> str_texts(list@)[j] != name@,
        decreases list.len() - i,
    {
        let entry = chars_of(list[i]);
        assert(str_texts(list@)[i as int] == list@[i as int]@);
        if same(entry.as_slice(), name) {
            return true;
        }
        i += 1;
    }
    false
}

/// Whether `name` is in `list`.
fn holds(list: &Vec<String>, name: &str) -> (r: bool)
    ensures
        r == texts(list@).contains(name@),
{
    let wanted = name.to_owned();
    let mut i: usize = 0;
    while i < list.len()
        invariant
            i <= list.len(),
            wanted@ == name@,
            forall|j: int| 0 <= j < i ==> texts(list@)[j] != name@,
        decreases list.len() - i,
    {
        assert(texts(list@)[i as int] == list@[i as int]@);
        if list[i] == wanted {
            return true;
        }
        i += 1;
    }
    false
}

/// Builder for command-line parsing (Command).
#[derive(Clone, Copy, Debug)]
pub struct CliBuilder<'a> {
    options: &'a [&'a str],
    paramopts: &'a [&'a str],
}

/// Command represents a command parsed from the command-line.
/// Use CliBuilder to build a parsed Command.
#[derive(Debug)]
pub struct Command {
    command: String,
    parameters: Dict<String>,
    options: Vec<String>,
    arguments: Vec<String>,
}

impl View for Command {
    type V = CommandView;

    closed spec fn view(&self) -> CommandView {
        CommandView {
            command: self.command@,
            parameters: self.parameters.entries(),
            options: texts(self.options@),
            arguments: texts(self.arguments@),
        }
    }
}

impl<'a> Default for CliBuilder<'a> {
    fn default() -> (r: Self)
        ensures
            r.option_names() == Seq::<Seq<char>>::empty(),
            r.paramopt_names() == Seq::<Seq<char>>::empty(),
    {
        Self::new()
    }
}

impl<'a> CliBuilder<'a> {
    /// The names listed as options.
    pub closed spec fn option_names(self) -> Seq<Seq<char>> {
        str_texts(self.options@)
    }

    /// The names listed as parameter or option.
    pub closed spec fn paramopt_names(self) -> Seq<Seq<char>> {
        str_texts(self.paramopts@)
    }

    /// Empty configuration for command-line parsing.
    pub fn new() -> (r: Self)
        ensures
            r.option_names() == Seq::<Seq<char>>::empty(),
            r.paramopt_names() == Seq::<Seq<char>>::empty(),
    {
        let r = Self { options: &[], paramopts: &[] };
        assert(r.option_names() =~= Seq::<Seq<char>>::empty());
        assert(r.paramopt_names() =~= Seq::<Seq<char>>::empty());
        r
    }

    /// Set options list.
    pub fn options(self, options: &'a [&'a str]) -> (r: Self)
        ensures
            r.option_names() == str_texts(options@),
            r.paramopt_names() == self.paramopt_names(),
    {
        Self { options, paramopts: self.paramopts }
    }

    /// Set list for parameter or option (not a parameter if value starts
    /// with "-").
    pub fn paramopt(self, paramopt: &'a [&'a str]) -> (r: Self)
        ensures
            r.option_names() == self.option_names(),
            r.paramopt_names() == str_texts(paramopt@),
    {
        Self { options: self.options, paramopts: paramopt }
    }

    /// Whether `name` is an option, given the argument after it.
    fn names_option(&self, name: &[char], next: &[char]) -> (r: bool)
        ensures
            r == is_option(name@, next@, self.option_names(), self.paramopt_names()),
    {
        let dash = next.len() > 0 && next[0] == '-';
        assert(dash == seq!['-'].is_prefix_of(next@)) by {
            if next.len() > 0 {
                assert(next@.subrange(0, 1) =~= seq![next@[0]]);
                if next@[0] != '-' {
                    assert(seq!['-'][0] != next@.subrange(0, 1)[0]);
                }
            }
        }
        (listed(self.paramopts, name) && dash) || listed(self.options, name)
    }

    /// Create a new Command from raw command line arguments.
    pub fn build(self, raw: &[String]) -> (r: Command)
        ensures
            r@ == command_of(texts(raw@), self.option_names(), self.paramopt_names()),
    {
        let ghost args = texts(raw@);
        let ghost opts = self.option_names();
        let ghost popts = self.paramopt_names();
        let mut parameters: Dict<String> = Dict::new();
        let mut options: Vec<String> = Vec::new();
        let mut arguments: Vec<String> = Vec::new();
        let mut pending: Option<String> = None;
        assert(texts(options@) =~= Seq::<Seq<char>>::empty());
        assert(texts(arguments@) =~= Seq::<Seq<char>>::empty());
        if raw.len() == 0 {
            return Command::create(String::new(), parameters, options, arguments);
        }
        assert(args[0] == raw@[0]@);
        let command = raw[0].clone();
        let mut index: usize = 1;
        while index < raw.len()
            invariant
                1 <= index <= raw.len(),
                args == texts(raw@),
                opts == self.option_names(),
                popts == self.paramopt_names(),
                cli_fold(args, index as int, opts, popts) == state_of(
                    &parameters,
                    &options,
                    &arguments,
                    &pending,
                ),
            decreases raw.len() - index,
        {
            let ghost before_state = cli_fold(args, index as int, opts, popts);
            let ghost target = cli_step(
                before_state,
                args[index as int],
                if index + 1 < raw.len() {
                    args[index + 1]
                } else {
                    Seq::empty()
                },
                opts,
                popts,
            );
            assert(cli_fold(args, index + 1, opts, popts) == target);
            let ghost old_options = texts(options@);
            let ghost old_arguments = texts(arguments@);
            let argument = chars_of(raw[index].as_str());
            assert(args[index as int] == raw@[index as int]@);
            let next: Vec<char> = if index + 1 < raw.len() {
                assert(args[index + 1] == raw@[index + 1]@);
                chars_of(raw[index + 1].as_str())
            } else {
                Vec::new()
            };
            let arg = argument.as_slice();
            match pending {
                Some(name) => {
                    parameters.insert(name, raw[index].clone());
                    pending = None;
                    assert(state_of(&parameters, &options, &arguments, &pending) == target);
                },
                None => {
                    let double = arg.len() >= 2 && arg[0] == '-' && arg[1] == '-';
                    let single = arg.len() >= 1 && arg[0] == '-';
                    proof {
                        if arg.len() >= 2 {
                            assert(arg@.subrange(0, 2) =~= seq![arg@[0], arg@[1]]);
                            if !double {
                                assert(seq!['-', '-'][0] == '-' && seq!['-', '-'][1] == '-');
                                assert(arg@.subrange(0, 2) != seq!['-', '-']);
                            }
                        }
                        if arg.len() >= 1 {
                            assert(arg@.subrange(0, 1) =~= seq![arg@[0]]);
                            if !single {
                                assert(seq!['-'][0] == '-');
                                assert(arg@.subrange(0, 1) != seq!['-']);
                            }
                        }
                        assert(double == seq!['-', '-'].is_prefix_of(arg@));
                        assert(single == seq!['-'].is_prefix_of(arg@));
                    }
                    if double || single {
                        let start: usize = if double {
                            2
                        } else {
                            1
                        };
                        let name = part(arg, start, arg.len());
                        assert(name@ =~= arg@.skip(start as int));
                        let text = string_of(name.as_slice());
                        if self.names_option(name.as_slice(), next.as_slice()) {
                            options.push(text);
                            assert(texts(options@) =~= old_options.push(name@));
                            assert(state_of(&parameters, &options, &arguments, &pending) == target);
                        } else {
                            let (key, value) = split_once(name.as_slice(), '=');
                            if !double && text.as_str().as_bytes().len() >= 2 && value.is_none() {
                                let mut j: usize = 0;
                                assert(name@.take(0) =~= Seq::<char>::empty());
                                assert(texts(options@) =~= old_options + single_letters(
                                    name@.take(0),
                                ));
                                while j < name.len()
                                    invariant
                                        j <= name.len(),
                                        texts(options@) == old_options + single_letters(
                                            name@.take(j as int),
                                        ),
                                    decreases name.len() - j,
                                {
                                    let c = name[j];
                                    proof {
                                        assert(name@.take(j + 1).drop_last() =~= name@.take(
                                            j as int,
                                        ));
                                        assert(name@.take(j + 1).last() == c);
                                    }
                                    if is_ascii(c) {
                                        let ghost so_far = texts(options@);
                                        let letter = part(name.as_slice(), j, j + 1);
                                        assert(letter@ =~= seq![c]);
                                        options.push(string_of(letter.as_slice()));
                                        assert(texts(options@) =~= so_far.push(seq![c]));
                                        assert(texts(options@) =~= old_options + single_letters(
                                            name@.take(j + 1),
                                        ));
                                    } else {
                                        assert(texts(options@) =~= old_options + single_letters(
                                            name@.take(j + 1),
                                        ));
                                    }
                                    j += 1;
                                }
                                assert(name@.take(j as int) =~= name@);
                                assert(state_of(&parameters, &options, &arguments, &pending)
                                    == target);
                            } else {
                                match value {
                                    Some(v) => {
                                        parameters.insert(
                                            string_of(key.as_slice()),
                                            string_of(v.as_slice()),
                                        );
                                        assert(state_of(&parameters, &options, &arguments, &pending)
                                            == target);
                                    },
                                    None => {
                                        pending = Some(text);
                                        assert(state_of(&parameters, &options, &arguments, &pending)
                                            == target);
                                    },
                                }
                            }
                        }
                    } else {
                        arguments.push(raw[index].clone());
                        assert(texts(arguments@) =~= old_arguments.push(arg@));
                        assert(state_of(&parameters, &options, &arguments, &pending) == target);
                    }
                },
            }
            index += 1;
        }
        let ghost before_last = texts(options@);
        match pending {
            Some(name) => {
                options.push(name);
                assert(texts(options@) =~= before_last.push(name@));
            },
            None => {},
        }
        Command::create(command, parameters, options, arguments)
    }
}

impl Command {
    /// Create Command from given values.
    fn create(
        command: String,
        parameters: Dict<String>,
        options: Vec<String>,
        arguments: Vec<String>,
    ) -> (r: Self)
        ensures
            r@ == (CommandView {
                command: command@,
                parameters: parameters.entries(),
                options: texts(options@),
                arguments: texts(arguments@),
            }),
    {
        Self { command, parameters, options, arguments }
    }

    /// Get command name.
    pub fn command(&self) -> (r: &str)
        ensures
            r@ == self@.command,
    {
        self.command.as_str()
    }

    /// Get all parameters.
    pub fn parameters(&self) -> (r: &Dict<String>)
        ensures
            r.entries() == self@.parameters,
    {
        &self.parameters
    }

    /// Get all arguments.
    pub fn arguments(&self) -> (r: &Vec<String>)
        ensures
            texts(r@) == self@.arguments,
    {
        &self.arguments
    }

    /// Get specific parameter or default: the default where there is no
    /// such parameter, and where its value does not parse.
    pub fn parameter<T: std::str::FromStr>(&self, name: &str, default: T) -> (r: T)
        ensures
            !crate::dict::has_key(self@.parameters, name@) ==> r == default,
    {
        match self.parameters.get(name) {
            Some(parameter) => parsed_or(parse_text(parameter.as_str()), default),
            None => {
                assert(!self.parameters@.contains_key(name@));
                default
            },
        }
    }

    /// Get specific parameter or default as &str.
    pub fn param<'a>(&'a self, name: &str, default: &'a str) -> (r: &'a str)
        ensures
            r@ == (if crate::dict::as_map(self@.parameters).contains_key(name@) {
                crate::dict::as_map(self@.parameters)[name@]
            } else {
                default@
            }),
    {
        match self.parameters.get(name) {
            Some(parameter) => parameter.as_str(),
            None => default,
        }
    }

    /// Get all options.
    pub fn options(&self) -> (r: &Vec<String>)
        ensures
            texts(r@) == self@.options,
    {
        &self.options
    }

    /// Check if option provided.
    pub fn option(&self, name: &str) -> (r: bool)
        ensures
            r == self@.options.contains(name@),
    {
        holds(&self.options, name)
    }

    /// Get argument at specific index or default: the default where there
    /// is no such argument, and where it does not parse.
    pub fn argument<T: std::str::FromStr>(&self, index: usize, default: T) -> (r: T)
        ensures
            index >= self@.arguments.len() ==> r == default,
    {
        if index < self.arguments.len() {
            parsed_or(parse_text(self.arguments[index].as_str()), default)
        } else {
            default
        }
    }

    /// Get argument at specific index or default as &str.
    pub fn arg<'a>(&'a self, index: usize, default: &'a str) -> (r: &'a str)
        ensures
            r@ == (if index < self@.arguments.len() {
                self@.arguments[index as int]
            } else {
                default@
            }),
    {
        if index < self.arguments.len() {
            assert(texts(self.arguments@)[index as int] == self.arguments@[index as int]@);
            self.arguments[index].as_str()
        } else {
            default
        }
    }

    /// Create a new Command from raw command line arguments without options.
    pub fn without_options(raw: &[String]) -> (r: Self)
        ensures
            r@ == command_of(texts(raw@), Seq::empty(), Seq::empty()),
    {
        CliBuilder::new().build(raw)
    }

    /// Create a new Command from raw command line arguments.
    /// Provide the options list as &[&str].
    pub fn from(raw: &[String], options: &[&str]) -> (r: Self)
        ensures
            r@ == command_of(texts(raw@), str_texts(options@), Seq::empty()),
    {
        CliBuilder::new().options(options).build(raw)
    }
}

} // verus!
