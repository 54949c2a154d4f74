use vstd::prelude::*;

verus! {

/// A text box element with the given id.
pub open spec fn text_box(id: Seq<char>) -> Seq<char> {
    "<textarea id=\""@ + id + "\"></textarea>"@
}

/// The text box element of a pipeline stage.
pub fn get_text_box(id: &str) -> (r: String)
    ensures
        r@ == text_box(id@),
{
    let mut r = String::from_str("<textarea id=\"");
    r.append(id);
    r.append("\"></textarea>");
    r
}

} // verus!
