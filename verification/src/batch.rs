//! The batch pipeline: a single pass over the input records, routing each
//! success into the output sequence and each failure into a diagnostic side
//! channel, then the output document and its pretty-printed text.

use vstd::prelude::*;
use crate::codec::json_of;
use crate::codec::parse_json;
use crate::codec::pretty_of;
use crate::codec::render_pretty;
use crate::json::JsonValue;
use crate::record::Bookmark;
use crate::record::BookmarkModel;
use crate::record::ConvertError;
use crate::record::LINK_CONTENT_TYPE;
use crate::record::all_strings;
use crate::record::convert_item;
use crate::record::spec_convert_item;
use crate::record::str_views;
use crate::record::tag_views;

verus! {

/// The character of one decimal digit.
pub open spec fn spec_digit(d: nat) -> char {
    if d == 0 {
        '0'
    } else if d == 1 {
        '1'
    } else if d == 2 {
        '2'
    } else if d == 3 {
        '3'
    } else if d == 4 {
        '4'
    } else if d == 5 {
        '5'
    } else if d == 6 {
        '6'
    } else if d == 7 {
        '7'
    } else if d == 8 {
        '8'
    } else {
        '9'
    }
}

/// The decimal digits of `n`, most significant first, without leading
/// zeroes (`0` itself is the single digit `0`).
pub open spec fn spec_decimal(n: nat) -> Seq<char>
    decreases n,
{
    if n < 10 {
        seq![spec_digit(n)]
    } else {
        spec_decimal(n / 10).push(spec_digit(n % 10))
    }
}

/// The one-character string of one decimal digit.
fn digit_str(d: usize) -> (r: &'static str)
    requires
        d < 10,
    ensures
        r@ == seq![spec_digit(d as nat)],
{
    proof {
        reveal_strlit("0");
        reveal_strlit("1");
        reveal_strlit("2");
        reveal_strlit("3");
        reveal_strlit("4");
        reveal_strlit("5");
        reveal_strlit("6");
        reveal_strlit("7");
        reveal_strlit("8");
        reveal_strlit("9");
    }
    let r: &'static str = if d == 0 {
        "0"
    } else if d == 1 {
        "1"
    } else if d == 2 {
        "2"
    } else if d == 3 {
        "3"
    } else if d == 4 {
        "4"
    } else if d == 5 {
        "5"
    } else if d == 6 {
        "6"
    } else if d == 7 {
        "7"
    } else if d == 8 {
        "8"
    } else {
        "9"
    };
    proof {
        assert(r@ =~= seq![spec_digit(d as nat)]);
    }
    r
}

/// Writes `n` in decimal.
pub fn decimal_string(n: usize) -> (r: String)
    ensures
        r@ == spec_decimal(n as nat),
    decreases n,
{
    if n < 10 {
        digit_str(n).to_owned()
    } else {
        let mut s = decimal_string(n / 10);
        s.append(digit_str(n % 10));
        proof {
            assert(spec_decimal((n / 10) as nat).push(spec_digit((n % 10) as nat)) =~= spec_decimal(
                (n / 10) as nat,
            ) + seq![spec_digit((n % 10) as nat)]);
        }
        s
    }
}

/// One failed record: its position in the input and the cause.
#[derive(Debug, Clone, Copy, PartialEq, Eq)]
pub struct Diagnostic {
    pub index: usize,
    pub cause: ConvertError,
}

impl View for Diagnostic {
    type V = (int, ConvertError);

    open spec fn view(&self) -> (int, ConvertError) {
        (self.index as int, self.cause)
    }
}

impl Diagnostic {
    /// The diagnostic line for this failure.
    pub open spec fn spec_line(self) -> Seq<char> {
        "Failed to convert "@ + spec_decimal(self.index as nat) + ": "@
            + self.cause.spec_message()
    }

    /// Renders the line `Failed to convert <index>: <cause>`.
    pub fn line(&self) -> (r: String)
        ensures
            r@ == self.spec_line(),
    {
        let mut s: String = "Failed to convert ".to_owned();
        let num = decimal_string(self.index);
        s.append(num.as_str());
        s.append(": ");
        let msg = self.cause.message();
        s.append(msg.as_str());
        proof {
            assert(s@ =~= self.spec_line());
        }
        s
    }
}

/// The outcome of one pass over a batch: the models of the converted
/// records, in input order, and one indexed failure per failed record, in
/// input order.
pub open spec fn spec_batch(items: Seq<JsonValue>, extra: Seq<Seq<char>>) -> (
    Seq<BookmarkModel>,
    Seq<(int, ConvertError)>,
)
    decreases items.len(),
{
    if items.len() == 0 {
        (Seq::empty(), Seq::empty())
    } else {
        let prev = spec_batch(items.drop_last(), extra);
        match spec_convert_item(items.last(), extra) {
            Ok(b) => (prev.0.push(b), prev.1),
            Err(e) => (prev.0, prev.1.push(((items.len() - 1) as int, e))),
        }
    }
}

/// Drives the whole batch through conversion with fault isolation: every
/// record is attempted; successes come out in input order; each failure
/// yields exactly one diagnostic under the record's input index.
pub fn convert_batch(items: &Vec<JsonValue>, extra_tags: &Vec<String>) -> (r: (
    Vec<Bookmark>,
    Vec<Diagnostic>,
))
    ensures
        r.0@.map_values(|b: Bookmark| b@) == spec_batch(items@, tag_views(extra_tags@)).0,
        r.1@.map_values(|d: Diagnostic| d@) == spec_batch(items@, tag_views(extra_tags@)).1,
        forall|i: int| 0 <= i < r.0@.len() ==> (#[trigger] r.0@[i]).wf(),
{
    let ghost e = tag_views(extra_tags@);
    let mut out: Vec<Bookmark> = Vec::new();
    let mut diags: Vec<Diagnostic> = Vec::new();
    let n: usize = items.len();
    let mut i: usize = 0;
    proof {
        assert(items@.take(0) =~= Seq::<JsonValue>::empty());
        assert(out@.map_values(|b: Bookmark| b@) =~= Seq::<BookmarkModel>::empty());
        assert(diags@.map_values(|d: Diagnostic| d@) =~= Seq::<(int, ConvertError)>::empty());
    }
    while i < n
        invariant
            i <= n,
            n == items@.len(),
            e == tag_views(extra_tags@),
            out@.map_values(|b: Bookmark| b@) == spec_batch(items@.take(i as int), e).0,
            diags@.map_values(|d: Diagnostic| d@) == spec_batch(items@.take(i as int), e).1,
            forall|j: int| 0 <= j < out@.len() ==> (#[trigger] out@[j]).wf(),
        decreases n - i,
    {
        proof {
            assert(items@.take(i as int + 1).drop_last() =~= items@.take(i as int));
            assert(items@.take(i as int + 1).last() == items@[i as int]);
        }
        match convert_item(&items[i], extra_tags) {
            Ok(b) => {
                let ghost gb = b@;
                let ghost before = out@.map_values(|b2: Bookmark| b2@);
                out.push(b);
                proof {
                    assert(out@.map_values(|b2: Bookmark| b2@) =~= before.push(gb));
                }
            },
            Err(c) => {
                let ghost before = diags@.map_values(|d: Diagnostic| d@);
                diags.push(Diagnostic { index: i, cause: c });
                proof {
                    assert(diags@.map_values(|d: Diagnostic| d@) =~= before.push((i as int, c)));
                }
            },
        }
        i = i + 1;
    }
    proof {
        assert(items@.take(n as int) =~= items@);
    }
    (out, diags)
}

/// Order preservation: the successes of a batch are exactly the conversions
/// of the convertible records, in their input order; a failed record is
/// omitted, not replaced by a gap.
pub proof fn lemma_order_preserved(items: Seq<JsonValue>, extra: Seq<Seq<char>>)
    ensures
        spec_batch(items, extra).0 == items.filter(
            |v: JsonValue| spec_convert_item(v, extra) is Ok,
        ).map_values(|v: JsonValue| spec_convert_item(v, extra)->Ok_0),
    decreases items.len(),
{
    reveal(Seq::filter);
    let pred = |v: JsonValue| spec_convert_item(v, extra) is Ok;
    let f = |v: JsonValue| spec_convert_item(v, extra)->Ok_0;
    if items.len() == 0 {
        assert(items.filter(pred) =~= Seq::<JsonValue>::empty());
        assert(items.filter(pred).map_values(f) =~= Seq::<BookmarkModel>::empty());
    } else {
        let pre = items.drop_last();
        let last = items.last();
        lemma_order_preserved(pre, extra);
        assert(items.filter(pred) == if pred(last) {
            pre.filter(pred).push(last)
        } else {
            pre.filter(pred)
        });
        if pred(last) {
            assert(pre.filter(pred).push(last).map_values(f) =~= pre.filter(pred).map_values(
                f,
            ).push(f(last)));
        }
    }
}

/// Fault isolation: each diagnostic of a batch names a failing record by its
/// input index and carries that record's own failure; the indices come in
/// increasing input order; every record is accounted for, as a success or as
/// exactly one diagnostic.
pub proof fn lemma_fault_isolation(items: Seq<JsonValue>, extra: Seq<Seq<char>>)
    ensures
        spec_batch(items, extra).0.len() + spec_batch(items, extra).1.len() == items.len(),
        forall|k: int| 0 <= k < spec_batch(items, extra).1.len() ==> ({
            let (i, c) = #[trigger] spec_batch(items, extra).1[k];
            &&& 0 <= i < items.len()
            &&& spec_convert_item(items[i], extra) == Err::<BookmarkModel, ConvertError>(c)
        }),
        forall|k1: int, k2: int|
            0 <= k1 < k2 < spec_batch(items, extra).1.len() ==> (#[trigger] spec_batch(
                items,
                extra,
            ).1[k1]).0 < (#[trigger] spec_batch(items, extra).1[k2]).0,
        forall|i: int|
            0 <= i < items.len() && spec_convert_item(#[trigger] items[i], extra) is Err
                ==> exists|k: int|
                0 <= k < spec_batch(items, extra).1.len() && (#[trigger] spec_batch(
                    items,
                    extra,
                ).1[k]).0 == i,
    decreases items.len(),
{
    if items.len() == 0 {
    } else {
        let pre = items.drop_last();
        let last = items.last();
        let n = items.len() as int;
        lemma_fault_isolation(pre, extra);
        let prev = spec_batch(pre, extra);
        let cur = spec_batch(items, extra);
        assert(forall|i: int| 0 <= i < n - 1 ==> pre[i] == #[trigger] items[i]);
        assert(last == items[n - 1]);
        match spec_convert_item(last, extra) {
            Ok(_) => {
                assert(cur.1 == prev.1);
                assert(forall|i: int|
                    0 <= i < n && spec_convert_item(#[trigger] items[i], extra) is Err ==> exists|
                        k: int,
                    |
                        0 <= k < cur.1.len() && (#[trigger] cur.1[k]).0 == i) by {
                    assert(forall|i: int|
                        0 <= i < n - 1 && spec_convert_item(#[trigger] pre[i], extra) is Err
                            ==> exists|k: int|
                            0 <= k < prev.1.len() && (#[trigger] prev.1[k]).0 == i);
                }
            },
            Err(c) => {
                assert(cur.1 == prev.1.push((n - 1, c)));
                assert(forall|k: int| 0 <= k < prev.1.len() ==> cur.1[k] == #[trigger] prev.1[k]);
                assert(cur.1[prev.1.len() as int] == (n - 1, c));
                assert(forall|i: int|
                    0 <= i < n && spec_convert_item(#[trigger] items[i], extra) is Err ==> exists|
                        k: int,
                    |
                        0 <= k < cur.1.len() && (#[trigger] cur.1[k]).0 == i) by {
                    assert(forall|i: int|
                        0 <= i < n - 1 && spec_convert_item(#[trigger] pre[i], extra) is Err
                            ==> exists|k: int|
                            0 <= k < prev.1.len() && (#[trigger] prev.1[k]).0 == i);
                    assert((cur.1[prev.1.len() as int]).0 == n - 1);
                }
            },
        }
    }
}

/// The shape of a converted record's content node: a `type` of `"link"` and
/// the record's URL, in that order.
pub open spec fn is_content_json(j: JsonValue, url: Seq<char>) -> bool {
    &&& j matches JsonValue::Obj(fs)
    &&& fs@.len() == 2
    &&& fs@[0].0@ == "type"@
    &&& (fs@[0].1 matches JsonValue::Str(t) && t@ == LINK_CONTENT_TYPE@)
    &&& fs@[1].0@ == "url"@
    &&& (fs@[1].1 matches JsonValue::Str(u) && u@ == url)
}

/// The shape of one converted record in the output document: its six fields
/// in the fixed order, with the values of the given model.
pub open spec fn is_bookmark_json(j: JsonValue, b: BookmarkModel) -> bool {
    &&& j matches JsonValue::Obj(fs)
    &&& fs@.len() == 6
    &&& fs@[0].0@ == "createdAt"@
    &&& (fs@[0].1 matches JsonValue::Int(t) && t as int == b.created_at)
    &&& fs@[1].0@ == "title"@
    &&& (fs@[1].1 matches JsonValue::Str(s) && s@ == b.title)
    &&& fs@[2].0@ == "tags"@
    &&& (fs@[2].1 matches JsonValue::Arr(xs) && all_strings(xs@) && str_views(xs@) == b.tags)
    &&& fs@[3].0@ == "content"@
    &&& is_content_json(fs@[3].1, b.url)
    &&& fs@[4].0@ == "archived"@
    &&& (fs@[4].1 matches JsonValue::Bool(a) && a == b.archived)
    &&& fs@[5].0@ == "note"@
    &&& (match b.note {
        None => fs@[5].1 is Null,
        Some(s) => fs@[5].1 matches JsonValue::Str(ns) && ns@ == s,
    })
}

/// The shape of the whole output document: a single object with one key,
/// `bookmarks`, bound to the array of converted records in order.
pub open spec fn is_document_json(j: JsonValue, bs: Seq<BookmarkModel>) -> bool {
    &&& j matches JsonValue::Obj(fs)
    &&& fs@.len() == 1
    &&& fs@[0].0@ == "bookmarks"@
    &&& (fs@[0].1 matches JsonValue::Arr(xs) && xs@.len() == bs.len() && (forall|i: int|
        0 <= i < bs.len() ==> is_bookmark_json(#[trigger] xs@[i], bs[i])))
}

/// Builds the output node of one converted record.
pub fn bookmark_json(b: &Bookmark) -> (r: JsonValue)
    requires
        b.wf(),
    ensures
        is_bookmark_json(r, b@),
{
    let mut tag_nodes: Vec<JsonValue> = Vec::new();
    let n: usize = b.tags.len();
    let mut i: usize = 0;
    while i < n
        invariant
            i <= n,
            n == b.tags@.len(),
            tag_nodes@.len() == i,
            forall|j: int|
                0 <= j < i ==> (#[trigger] tag_nodes@[j]) is Str && tag_nodes@[j]->Str_0@
                    == b.tags@[j]@,
        decreases n - i,
    {
        tag_nodes.push(JsonValue::Str(b.tags[i].clone()));
        i = i + 1;
    }
    proof {
        assert(str_views(tag_nodes@) =~= b@.tags);
    }
    let mut content_fields: Vec<(String, JsonValue)> = Vec::new();
    content_fields.push(("type".to_owned(), JsonValue::Str(b.content.typ.clone())));
    content_fields.push(("url".to_owned(), JsonValue::Str(b.content.url.clone())));
    let mut fields: Vec<(String, JsonValue)> = Vec::new();
    fields.push(("createdAt".to_owned(), JsonValue::Int(b.created_at)));
    fields.push(("title".to_owned(), JsonValue::Str(b.title.clone())));
    fields.push(("tags".to_owned(), JsonValue::Arr(tag_nodes)));
    fields.push(("content".to_owned(), JsonValue::Obj(content_fields)));
    fields.push(("archived".to_owned(), JsonValue::Bool(b.archived)));
    let note_node: JsonValue = match &b.note {
        None => JsonValue::Null,
        Some(s) => JsonValue::Str(s.clone()),
    };
    fields.push(("note".to_owned(), note_node));
    JsonValue::Obj(fields)
}

/// Builds the whole output document from the converted records.
pub fn document_json(bookmarks: &Vec<Bookmark>) -> (r: JsonValue)
    requires
        forall|i: int| 0 <= i < bookmarks@.len() ==> (#[trigger] bookmarks@[i]).wf(),
    ensures
        is_document_json(r, bookmarks@.map_values(|b: Bookmark| b@)),
{
    let mut nodes: Vec<JsonValue> = Vec::new();
    let n: usize = bookmarks.len();
    let mut i: usize = 0;
    while i < n
        invariant
            i <= n,
            n == bookmarks@.len(),
            nodes@.len() == i,
            forall|j: int| 0 <= j < bookmarks@.len() ==> (#[trigger] bookmarks@[j]).wf(),
            forall|j: int| 0 <= j < i ==> is_bookmark_json(#[trigger] nodes@[j], bookmarks@[j]@),
        decreases n - i,
    {
        nodes.push(bookmark_json(&bookmarks[i]));
        i = i + 1;
    }
    let mut fields: Vec<(String, JsonValue)> = Vec::new();
    fields.push(("bookmarks".to_owned(), JsonValue::Arr(nodes)));
    JsonValue::Obj(fields)
}

/// Why a whole run fails: the input is not valid JSON at all, or its top
/// level is not an array. Nothing is written on either.
#[derive(Debug, Clone, Copy, PartialEq, Eq, Structural)]
pub enum FatalError {
    Unparseable,
    NotAnArray,
}

impl FatalError {
    /// The failure, described.
    pub open spec fn spec_message(self) -> Seq<char> {
        match self {
            FatalError::Unparseable => "input is not valid JSON"@,
            FatalError::NotAnArray => "Expected an array"@,
        }
    }

    /// The human-readable description of the failure.
    pub fn message(&self) -> (r: String)
        ensures
            r@ == self.spec_message(),
    {
        match self {
            FatalError::Unparseable => "input is not valid JSON".to_owned(),
            FatalError::NotAnArray => "Expected an array".to_owned(),
        }
    }
}

/// Converts a whole export: parses the input text, requires its top level to
/// be an array, converts every record with fault isolation, and returns the
/// pretty-printed output document together with one diagnostic per failed
/// record. The run fails only on unparseable input or a non-array top
/// level; "every record failed" is still a successful run.
pub fn convert(input: &str, tags: Vec<String>) -> (r: Result<
    (String, Vec<Diagnostic>),
    FatalError,
>)
    ensures
        json_of(input@) is None ==> (r matches Err(e) && e == FatalError::Unparseable),
        (json_of(input@) matches Some(d) ==> (d !is Arr ==> (r matches Err(e) && e
            == FatalError::NotAnArray))),
        (json_of(input@) matches Some(d) ==> (d matches JsonValue::Arr(items) ==> ({
            let sb = spec_batch(items@, tag_views(tags@));
            r matches Ok(out) && out.1@.map_values(|d2: Diagnostic| d2@) == sb.1 && (exists|
                doc: JsonValue,
            |
                #[trigger] is_document_json(doc, sb.0) && out.0@ == pretty_of(doc))
        }))),
{
    match parse_json(input) {
        None => Err(FatalError::Unparseable),
        Some(doc) => match doc {
            JsonValue::Arr(items) => {
                let r = convert_batch(&items, &tags);
                let bookmarks = r.0;
                let diags = r.1;
                let doc_node = document_json(&bookmarks);
                let text = render_pretty(&doc_node);
                proof {
                    let sb = spec_batch(items@, tag_views(tags@));
                    assert(is_document_json(doc_node, sb.0));
                    assert(text@ == pretty_of(doc_node));
                }
                Ok((text, diags))
            },
            _ => Err(FatalError::NotAnArray),
        },
    }
}

} // verus!
