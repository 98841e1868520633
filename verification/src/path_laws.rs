//! What the steps of paths look like.
use crate::path::{escaped, field_step};
use crate::protobuf::part_path;
use vstd::prelude::*;

verus! {

/// Whether a name is made of letters, digits and underscores, with no digit in front.
pub open spec fn is_plain(name: Seq<char>) -> bool {
    &&& name.len() > 0
    &&& !('0' <= name[0] <= '9')
    &&& forall|i: int|
        0 <= i < name.len() ==> {
            ||| 'a' <= #[trigger] name[i] <= 'z'
            ||| 'A' <= name[i] <= 'Z'
            ||| '0' <= name[i] <= '9'
            ||| name[i] == '_'
        }
}

/// The step to a plain name is a dot and the name; the step to any other name has it in quotes and
/// brackets.
pub proof fn steps_go_to_their_fields(name: Seq<char>)
    ensures
        is_plain(name) ==> field_step(name) == seq!['.'] + name,
        !is_plain(name) ==> field_step(name) == seq!['[', '\''] + escaped(name) + seq!['\'', ']'],
{
    if is_plain(name) {
        assert('a' <= name[0] <= 'z' || 'A' <= name[0] <= 'Z' || name[0] == '_');
    }
}

/// Quotes and backslashes get a backslash in front of them, and nothing else is changed.
pub proof fn quotes_are_escaped(name: Seq<char>, c: char)
    ensures
        escaped(Seq::empty()) == Seq::<char>::empty(),
        c == '\'' || c == '\\' ==> escaped(name.push(c)) == escaped(name) + seq!['\\', c],
        c != '\'' && c != '\\' ==> escaped(name.push(c)) == escaped(name) + seq![c],
{
    assert(name.push(c).drop_last() =~= name);
    assert(escaped(name).push('\\').push(c) =~= escaped(name) + seq!['\\', c]);
    assert(escaped(name).push(c) =~= escaped(name) + seq![c]);
}

/// The path of a part is a step down from the whole; the path of no part is the whole.
pub proof fn parts_are_a_step_down(part: Seq<char>)
    ensures
        part.len() == 0 ==> part_path(part) == seq!['$'],
        part.len() > 0 ==> part_path(part) == seq!['$'] + field_step(part),
{
}

} // verus!
