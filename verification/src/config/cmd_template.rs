use vstd::prelude::*;
use crate::text::{contains, replace_all, str_contains, str_eq, str_replace};

verus! {

/// An external command with its arguments, some of which may be placeholders such as
/// `$FILE` that are filled in before the command runs.
#[derive(Debug, Clone)]
pub struct CmdTemplate {
    pub command: String,
    pub args: Vec<String>,
}

/// Why a list of configuration values does not make a command.
#[derive(Debug, Clone, Copy, PartialEq, Eq)]
pub enum CmdTemplateError {
    /// No value at all: the command itself is missing.
    NoCommand,
    /// The value at this index is not a string.
    NotAString(usize),
}

impl CmdTemplateError {
    /// The message shown for this error.
    pub fn message(&self) -> (s: String)
        ensures
            s@ == cmd_template_error_text(*self),
    {
        match self {
            CmdTemplateError::NoCommand => String::from_str("no command specified"),
            CmdTemplateError::NotAString(_) => String::from_str("cannot be converted to str"),
        }
    }
}

/// The message of a [`CmdTemplateError`].
pub open spec fn cmd_template_error_text(e: CmdTemplateError) -> Seq<char> {
    match e {
        CmdTemplateError::NoCommand => "no command specified"@,
        CmdTemplateError::NotAString(_) => "cannot be converted to str"@,
    }
}

/// The views of a list of strings.
pub open spec fn string_views(v: Seq<String>) -> Seq<Seq<char>> {
    v.map_values(|s: String| s@)
}

/// True when `i` is the first index at which `args` holds exactly `placeholder`.
pub open spec fn is_first_match(args: Seq<Seq<char>>, placeholder: Seq<char>, i: int) -> bool {
    &&& 0 <= i < args.len()
    &&& args[i] == placeholder
    &&& forall|j: int| 0 <= j < i ==> args[j] != placeholder
}

/// An argument after `replace_in_matching_element`: every occurrence of the placeholder
/// replaced when it holds one, unchanged otherwise.
pub open spec fn replaced_within(arg: Seq<char>, placeholder: Seq<char>, value: Seq<char>) -> Seq<char> {
    if contains(arg, placeholder) {
        replace_all(arg, placeholder, value)
    } else {
        arg
    }
}

/// True when `values` make a command: a first value and all values strings.
pub open spec fn values_make_command(values: Seq<Option<String>>) -> bool {
    values.len() > 0 && forall|i: int| 0 <= i < values.len() ==> values[i] is Some
}

impl CmdTemplate {
    /// Builds a command from configuration values, each a string or something else (`None`):
    /// the first is the command, the rest its arguments.
    pub fn try_from_values(values: Vec<Option<String>>) -> (res: Result<CmdTemplate, CmdTemplateError>)
        ensures
            values@.len() == 0 ==> res == Err::<CmdTemplate, CmdTemplateError>(CmdTemplateError::NoCommand),
            values@.len() > 0 && values@[0] is None ==> res == Err::<CmdTemplate, CmdTemplateError>(CmdTemplateError::NotAString(0)),
            res is Ok <==> values_make_command(values@),
            res matches Err(CmdTemplateError::NotAString(i)) ==> {
                &&& 0 <= i < values@.len()
                &&& values@[i as int] is None
                &&& forall|j: int| 0 <= j < i ==> values@[j] is Some
            },
            res matches Ok(t) ==> {
                &&& t.command@ == values@[0]->Some_0@
                &&& t.args@.len() == values@.len() - 1
                &&& forall|i: int| 0 <= i < t.args@.len() ==> t.args@[i]@ == values@[i + 1]->Some_0@
            },
    {
        if values.len() == 0 {
            return Err(CmdTemplateError::NoCommand);
        }
        let command = match &values[0] {
            Some(c) => c.clone(),
            None => {
                return Err(CmdTemplateError::NotAString(0));
            },
        };
        let mut args: Vec<String> = Vec::new();
        let mut i: usize = 1;
        while i < values.len()
            invariant
                1 <= i <= values.len(),
                values@[0] is Some,
                forall|j: int| 0 <= j < i ==> values@[j] is Some,
                args@.len() == i - 1,
                forall|j: int| 0 <= j < args@.len() ==> args@[j]@ == values@[j + 1]->Some_0@,
            decreases values.len() - i,
        {
            match &values[i] {
                Some(a) => {
                    args.push(a.clone());
                },
                None => {
                    return Err(CmdTemplateError::NotAString(i));
                },
            }
            i = i + 1;
        }
        Ok(CmdTemplate { command, args })
    }

    /// A copy of the command.
    pub fn duplicate(&self) -> (r: CmdTemplate)
        ensures
            r.command@ == self.command@,
            string_views(r.args@) == string_views(self.args@),
            r.args@.len() == self.args@.len(),
            forall|i: int| 0 <= i < r.args@.len() ==> #[trigger] r.args@[i]@ == self.args@[i]@,
    {
        let mut args: Vec<String> = Vec::new();
        let mut i: usize = 0;
        while i < self.args.len()
            invariant
                i <= self.args@.len(),
                args@.len() == i,
                forall|j: int| 0 <= j < i ==> #[trigger] args@[j]@ == self.args@[j]@,
            decreases self.args@.len() - i,
        {
            args.push(self.args[i].clone());
            i = i + 1;
        }
        let r = CmdTemplate { command: self.command.clone(), args };
        assert(string_views(r.args@) =~= string_views(self.args@));
        r
    }

    /// Puts `value` in place of the first argument that is exactly `placeholder`; nothing
    /// changes when no argument is.
    pub fn replace_matching_element(&mut self, placeholder: &str, value: &str)
        ensures
            final(self).command == old(self).command,
            final(self).args@.len() == old(self).args@.len(),
            forall|i: int|
                0 <= i < old(self).args@.len() ==> #[trigger] final(self).args@[i]@ == if is_first_match(
                    string_views(old(self).args@),
                    placeholder@,
                    i,
                ) {
                    value@
                } else {
                    old(self).args@[i]@
                },
    {
        let mut i: usize = 0;
        while i < self.args.len()
            invariant
                self == old(self),
                i <= self.args@.len(),
                forall|j: int| 0 <= j < i ==> self.args@[j]@ != placeholder@,
            decreases self.args@.len() - i,
        {
            if str_eq(self.args[i].as_str(), placeholder) {
                let ghost before = self.args@;
                self.args.set(i, String::from_str(value));
                assert forall|k: int| 0 <= k < before.len() implies #[trigger] self.args@[k]@ == if is_first_match(
                    string_views(before),
                    placeholder@,
                    k,
                ) {
                    value@
                } else {
                    before[k]@
                } by {
                    if k < i {
                    } else if k > i {
                        assert(string_views(before)[i as int] == placeholder@);
                        assert(!is_first_match(string_views(before), placeholder@, k));
                    }
                }
                return;
            }
            i = i + 1;
        }
    }

    /// Replaces every occurrence of `placeholder` inside every argument by `value`.
    pub fn replace_in_matching_element(&mut self, placeholder: &str, value: &str)
        ensures
            final(self).command == old(self).command,
            final(self).args@.len() == old(self).args@.len(),
            forall|i: int|
                0 <= i < old(self).args@.len() ==> #[trigger] final(self).args@[i]@ == replaced_within(
                    old(self).args@[i]@,
                    placeholder@,
                    value@,
                ),
    {
        let mut next: Vec<String> = Vec::new();
        let mut i: usize = 0;
        while i < self.args.len()
            invariant
                self == old(self),
                i <= self.args@.len(),
                next@.len() == i,
                forall|j: int|
                    0 <= j < i ==> #[trigger] next@[j]@ == replaced_within(
                        self.args@[j]@,
                        placeholder@,
                        value@,
                    ),
            decreases self.args@.len() - i,
        {
            let element = self.args[i].as_str();
            if str_contains(element, placeholder) {
                next.push(str_replace(element, placeholder, value));
            } else {
                next.push(self.args[i].clone());
            }
            i = i + 1;
        }
        self.args = next;
    }
}

} // verus!
