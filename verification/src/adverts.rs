//! The advertisement records a decoded response consists of, and their
//! mathematical views.

use vstd::prelude::*;

verus! {

/// The ghost view of one advertisement record: every textual field as its
/// character sequence.
pub struct AdView {
    pub id: Seq<char>,
    pub internal_id: Option<usize>,
    pub published_date: Seq<char>,
    pub title: Seq<char>,
    pub workplace: Seq<char>,
    pub workplace_name: Seq<char>,
}

/// One job advertisement as returned by the search API.
///
/// `published_date` holds the timestamp text of the response; it is checked to
/// denote an instant when the record is decoded.
pub struct AmsDataItem {
    pub id: String,
    pub internal_id: Option<usize>,
    pub published_date: String,
    pub title: String,
    pub workplace: String,
    pub workplace_name: String,
}

impl View for AmsDataItem {
    type V = AdView;

    open spec fn view(&self) -> AdView {
        AdView {
            id: self.id@,
            internal_id: self.internal_id,
            published_date: self.published_date@,
            title: self.title@,
            workplace: self.workplace@,
            workplace_name: self.workplace_name@,
        }
    }
}

/// An ordered set of advertisements; the order of the sequence is the order of
/// the response, and the 1-based display rank of a record is its index plus one.
pub struct AmsData {
    pub ads: Vec<AmsDataItem>,
}

/// The views of a sequence of records.
pub open spec fn views_of(items: Seq<AmsDataItem>) -> Seq<AdView> {
    Seq::new(items.len(), |i: int| items[i]@)
}

impl View for AmsData {
    type V = Seq<AdView>;

    open spec fn view(&self) -> Seq<AdView> {
        views_of(self.ads@)
    }
}

impl AmsData {
    /// The empty advertisement set a session starts with.
    pub fn empty() -> (r: AmsData)
        ensures
            r@ == Seq::<AdView>::empty(),
    {
        let r = AmsData { ads: Vec::new() };
        proof {
            assert(r@ =~= Seq::<AdView>::empty());
        }
        r
    }

    /// How many advertisements the set holds.
    pub fn len(&self) -> (n: usize)
        ensures
            n == self@.len(),
    {
        self.ads.len()
    }
}

} // verus!
