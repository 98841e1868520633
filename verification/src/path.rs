//! The path expressions by which matching rules and generators find the values that they apply to.
use vstd::prelude::*;

verus! {

/// A path, held as its expression.
#[derive(Debug)]
pub struct DocPath {
    pub expr: String,
}

/// Whether `c` may start an identifier: an underscore or one of the 26 letters, in either case.
pub open spec fn starts_identifier(c: char) -> bool {
    c == '_' || ('A' <= c && c <= 'Z') || ('a' <= c && c <= 'z')
}

/// Whether a name is an identifier: letters, digits and underscores, with no digit in front.
pub open spec fn is_identifier(name: Seq<char>) -> bool {
    &&& name.len() > 0
    &&& starts_identifier(name[0])
    &&& forall|i: int|
        0 <= i < name.len() ==> starts_identifier(#[trigger] name[i]) || ('0' <= name[i] && name[i]
            <= '9')
}

/// The name with a backslash in front of each quote and each backslash.
pub open spec fn escaped(name: Seq<char>) -> Seq<char>
    decreases name.len(),
{
    if name.len() == 0 {
        Seq::empty()
    } else if name.last() == '\\' || name.last() == '\'' {
        escaped(name.drop_last()).push('\\').push(name.last())
    } else {
        escaped(name.drop_last()).push(name.last())
    }
}

/// The step of a path expression that goes to a field: a dot and an identifier, or any other name
/// in quotes and brackets.
pub open spec fn field_step(name: Seq<char>) -> Seq<char> {
    if is_identifier(name) {
        seq!['.'] + name
    } else {
        seq!['[', '\''] + escaped(name) + seq!['\'', ']']
    }
}

/// `pact_models::path_exp::DocPath::push_field`: what it puts at the end of the expression of a
/// path.
#[verifier::external_body]
fn print_field_step(name: &str) -> (step: String)
    ensures
        step@ == field_step(name@),
{
    let mut path = pact_models::path_exp::DocPath::empty();
    path.push_field(name);
    path.to_string()
}

impl View for DocPath {
    type V = Seq<char>;

    open spec fn view(&self) -> Seq<char> {
        self.expr@
    }
}

impl DocPath {
    /// The path of the whole document.
    pub fn root() -> (path: DocPath)
        ensures
            path@ == seq!['$'],
    {
        proof {
            reveal_strlit("$");
            assert("$"@ =~= seq!['$']);
        }
        DocPath { expr: "$".to_owned() }
    }

    /// Goes on to a field.
    pub fn push_field(&mut self, name: &str)
        ensures
            final(self)@ == old(self)@ + field_step(name@),
    {
        self.expr.append(print_field_step(name).as_str());
    }

    /// The path of a field of the value at this path.
    pub fn field(&self, name: &str) -> (path: DocPath)
        ensures
            path@ == self@ + field_step(name@),
    {
        let mut path = DocPath { expr: self.expr.clone() };
        path.push_field(name);
        path
    }
}

} // verus!
