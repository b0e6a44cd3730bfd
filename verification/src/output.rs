//! The shell command that assigns a chosen value to an environment variable.

use vstd::prelude::*;
use crate::text::push_char;

verus! {

broadcast use vstd::string::group_string_axioms;

/// What one character of a value becomes inside a single-quoted literal: a
/// single quote is doubled, any other character stands for itself.
pub open spec fn escaped_char(c: char) -> Seq<char> {
    if c == '\'' {
        seq!['\'', '\'']
    } else {
        seq![c]
    }
}

/// A value with every single quote doubled.
pub open spec fn escape_single_quotes(value: Seq<char>) -> Seq<char>
    decreases value.len(),
{
    if value.len() == 0 {
        Seq::empty()
    } else {
        escape_single_quotes(value.drop_last()) + escaped_char(value.last())
    }
}

/// The assignment `$Env:<name> = '<escaped value>'`.
pub open spec fn command_text(name: Seq<char>, value: Seq<char>) -> Seq<char> {
    "$Env:"@ + name + " = '"@ + escape_single_quotes(value) + "'"@
}

/// Generates the PowerShell command that sets the variable `name` to
/// `value`, the value written as a single-quoted literal.
pub fn generate_powershell_command(name: &str, value: &str) -> (command: String)
    ensures
        command@ == command_text(name@, value@),
{
    let mut command = String::from_str("$Env:");
    command.append(name);
    command.append(" = '");
    let ghost head = command@;
    for c in it: value.chars()
        invariant
            it.seq() == value@,
            command@ == head + escape_single_quotes(value@.take(it.index())),
    {
        proof {
            reveal_strlit("''");
            assert(value@.take(it.index() + 1).drop_last() == value@.take(it.index()));
        }
        if c == '\'' {
            command.append("''");
        } else {
            push_char(&mut command, c);
        }
    }
    proof {
        assert(value@.take(value@.len() as int) == value@);
    }
    command.append("'");
    command
}

/// Escaping goes character by character: the escape of a concatenation is
/// the concatenation of the escapes.
pub proof fn lemma_escape_concat(a: Seq<char>, b: Seq<char>)
    ensures
        escape_single_quotes(a + b) == escape_single_quotes(a) + escape_single_quotes(b),
    decreases b.len(),
{
    if b.len() > 0 {
        lemma_escape_concat(a, b.drop_last());
        assert((a + b).drop_last() =~= a + b.drop_last());
        assert(escape_single_quotes(a + b) =~= escape_single_quotes(a) + (escape_single_quotes(
            b.drop_last(),
        ) + escaped_char(b.last())));
    }
}

/// A value without a single quote is its own escape.
pub proof fn lemma_escape_without_quotes(value: Seq<char>)
    requires
        forall|i: int| 0 <= i < value.len() ==> value[i] != '\'',
    ensures
        escape_single_quotes(value) == value,
    decreases value.len(),
{
    if value.len() > 0 {
        lemma_escape_without_quotes(value.drop_last());
    }
}

/// Escaping adds one character for each single quote in the value.
pub proof fn lemma_escape_len(value: Seq<char>)
    ensures
        escape_single_quotes(value).len() == value.len() + value.filter(|c: char| c == '\'').len(),
    decreases value.len(),
{
    reveal(Seq::filter);
    if value.len() > 0 {
        lemma_escape_len(value.drop_last());
    }
}

} // verus!
