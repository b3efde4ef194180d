//! The text of a paging message made from one alert of a webhook call.

use vstd::prelude::*;

verus! {

/// One alert: its status, its labels, and its annotations, each a list of
/// distinct keys with their values.
pub struct AlertInput {
    pub status: String,
    pub labels: Vec<(String, String)>,
    pub annotations: Vec<(String, String)>,
}

/// The upper-case form of a string, as `str::to_uppercase` gives it.
pub uninterp spec fn upper_of(s: Seq<char>) -> Seq<char>;

/// Relies on `str::to_uppercase`: the result depends on the characters alone.
#[verifier::external_body]
fn uppercase(s: &str) -> (r: String)
    ensures
        r@ == upper_of(s@),
{
    s.to_uppercase()
}

/// The value of the first entry with the given key.
pub open spec fn lookup(pairs: Seq<(String, String)>, key: Seq<char>) -> Option<Seq<char>>
    decreases pairs.len(),
{
    if pairs.len() == 0 {
        None
    } else if pairs[0].0@ == key {
        Some(pairs[0].1@)
    } else {
        lookup(pairs.drop_first(), key)
    }
}

/// One `key: value` line per label, in order.
pub open spec fn label_lines(labels: Seq<(String, String)>) -> Seq<char>
    decreases labels.len(),
{
    if labels.len() == 0 {
        Seq::empty()
    } else {
        label_lines(labels.drop_last()) + labels.last().0@ + ": "@ + labels.last().1@ + "\n"@
    }
}

/// An annotation as a paragraph of its own, or nothing when it is absent.
pub open spec fn paragraph(v: Option<Seq<char>>) -> Seq<char> {
    match v {
        Some(t) => "\n"@ + t + "\n"@,
        None => Seq::empty(),
    }
}

/// The message: the status in capitals on a line, the labels, then the
/// summary and the description annotations as paragraphs.
pub open spec fn alert_text(a: AlertInput) -> Seq<char> {
    upper_of(a.status@) + "\n"@ + label_lines(a.labels@) + paragraph(lookup(a.annotations@, "summary"@))
        + paragraph(lookup(a.annotations@, "description"@))
}

fn find_value<'a>(pairs: &'a Vec<(String, String)>, key: &String) -> (r: Option<&'a String>)
    ensures
        match r {
            Some(v) => lookup(pairs@, key@) == Some(v@),
            None => lookup(pairs@, key@) is None,
        },
{
    let mut i: usize = 0;
    assert(pairs@.subrange(0, pairs@.len() as int) =~= pairs@);
    while i < pairs.len()
        invariant
            i <= pairs@.len(),
            lookup(pairs@, key@) == lookup(pairs@.subrange(i as int, pairs@.len() as int), key@),
        decreases pairs.len() - i,
    {
        let ghost rest = pairs@.subrange(i as int, pairs@.len() as int);
        assert(rest.drop_first() =~= pairs@.subrange(i as int + 1, pairs@.len() as int));
        if pairs[i].0 == *key {
            return Some(&pairs[i].1);
        }
        i = i + 1;
    }
    None
}

fn append_paragraph(out: &mut String, v: Option<&String>)
    ensures
        final(out)@ == old(out)@ + paragraph(
            match v {
                Some(t) => Some(t@),
                None => None,
            },
        ),
{
    match v {
        Some(t) => {
            out.append("\n");
            out.append(t.as_str());
            out.append("\n");
        },
        None => {
            assert(old(out)@ + Seq::<char>::empty() =~= old(out)@);
        },
    }
}

impl AlertInput {
    /// The message that pages for this alert.
    pub fn render(&self) -> (r: String)
        ensures
            r@ == alert_text(*self),
    {
        let mut out = uppercase(self.status.as_str());
        out.append("\n");
        let mut i: usize = 0;
        while i < self.labels.len()
            invariant
                i <= self.labels@.len(),
                out@ == upper_of(self.status@) + "\n"@ + label_lines(self.labels@.subrange(0, i as int)),
            decreases self.labels.len() - i,
        {
            assert(self.labels@.subrange(0, i as int + 1).drop_last() =~= self.labels@.subrange(0, i as int));
            out.append(self.labels[i].0.as_str());
            out.append(": ");
            out.append(self.labels[i].1.as_str());
            out.append("\n");
            i = i + 1;
        }
        assert(self.labels@.subrange(0, i as int) =~= self.labels@);
        let summary_key = String::from_str("summary");
        let description_key = String::from_str("description");
        append_paragraph(&mut out, find_value(&self.annotations, &summary_key));
        append_paragraph(&mut out, find_value(&self.annotations, &description_key));
        out
    }
}

} // verus!
