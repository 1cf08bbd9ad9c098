//! Notion databases.
use crate::json::JsonValue;
use crate::models::common::{plain_text_of, rich_view, RichText, SpecRichText};
use crate::text::{extend_str, string_of};
use vstd::prelude::*;

verus! {

broadcast use vstd::std_specs::vec::group_vec_axioms;

/// A Notion database.
#[derive(Debug)]
pub struct Database {
    pub object: String,
    pub id: String,
    /// The database title as rich text.
    pub title: Vec<RichText>,
    /// The property schema by property name.
    pub properties: JsonValue,
    pub url: String,
    pub in_trash: bool,
}

/// The plain texts of spans, one after another.
pub open spec fn plain_of_spans(s: Seq<SpecRichText>) -> Seq<char>
    decreases s.len(),
{
    if s.len() == 0 {
        seq![]
    } else {
        plain_of_spans(s.drop_last()) + plain_text_of(s.last())
    }
}

impl Database {
    /// The title as plain text.
    pub fn title_text(&self) -> (r: String)
        ensures
            r@ == plain_of_spans(rich_view(self.title@)),
    {
        let ghost rv = rich_view(self.title@);
        let mut out: Vec<char> = Vec::new();
        let mut i: usize = 0;
        while i < self.title.len()
            invariant
                i <= self.title.len(),
                rv == rich_view(self.title@),
                rv.len() == self.title.len(),
                forall|q: int| 0 <= q < self.title.len() ==> #[trigger] rv[q] == self.title@[q]@,
                out@ == plain_of_spans(rv.take(i as int)),
            decreases self.title.len() - i,
        {
            assert(rv.take(i + 1).drop_last() =~= rv.take(i as int));
            let t = self.title[i].plain_text();
            extend_str(&mut out, t.as_str());
            i = i + 1;
        }
        assert(rv.take(self.title.len() as int) =~= rv);
        string_of(&out)
    }
}

} // verus!
