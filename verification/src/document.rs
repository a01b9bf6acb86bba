//! The element structure of an event stream: where each element ends, which
//! items (child elements, text, CDATA) it contains, and where the root
//! element starts.

use vstd::prelude::*;

use crate::events::{is_start, tag_bytes, views, EventView, XmlEvent};
use crate::text::{all_space, bytes_equal, is_all_space};

verus! {

/// Position just past the element that starts at `i`, when the events from
/// `i` on form a complete element.
pub open spec fn elem_end(evs: Seq<EventView>, i: int) -> Option<int>
    decreases evs.len() - i, 0int,
{
    if 0 <= i < evs.len() {
        match evs[i] {
            EventView::Empty { .. } => Some(i + 1),
            EventView::Open { name, .. } => content_end(evs, i + 1, name),
            _ => None,
        }
    } else {
        None
    }
}

/// Position just past the end tag `</name>` that closes a content starting
/// at `p`, when the content is complete.
pub open spec fn content_end(evs: Seq<EventView>, p: int, name: Seq<u8>) -> Option<int>
    decreases evs.len() - p, 1int,
{
    if 0 <= p < evs.len() {
        match evs[p] {
            EventView::Close { name: m } => if m == name {
                Some(p + 1)
            } else {
                None
            },
            EventView::Open { .. } => match elem_end(evs, p) {
                Some(q) => if p < q <= evs.len() {
                    content_end(evs, q, name)
                } else {
                    None
                },
                None => None,
            },
            EventView::Empty { .. } => content_end(evs, p + 1, name),
            EventView::Text { .. } => content_end(evs, p + 1, name),
            EventView::CData { .. } => content_end(evs, p + 1, name),
            _ => None,
        }
    } else {
        None
    }
}

/// Positions of the items (child elements, text and CDATA sections) of a
/// content that starts at `p`, in document order.
pub open spec fn kids_from(evs: Seq<EventView>, p: int) -> Seq<int>
    decreases evs.len() - p,
{
    if 0 <= p < evs.len() {
        match evs[p] {
            EventView::Open { .. } => match elem_end(evs, p) {
                Some(q) => if p < q <= evs.len() {
                    seq![p] + kids_from(evs, q)
                } else {
                    seq![]
                },
                None => seq![],
            },
            EventView::Empty { .. } => seq![p] + kids_from(evs, p + 1),
            EventView::Text { .. } => seq![p] + kids_from(evs, p + 1),
            EventView::CData { .. } => seq![p] + kids_from(evs, p + 1),
            _ => seq![],
        }
    } else {
        seq![]
    }
}

/// Positions held in `usize`, as integers.
pub open spec fn ints(s: Seq<usize>) -> Seq<int> {
    s.map_values(|k: usize| k as int)
}

/// Positions of the items of the element that starts at `i`.
pub open spec fn children(evs: Seq<EventView>, i: int) -> Seq<int> {
    if 0 <= i < evs.len() && evs[i] is Open {
        kids_from(evs, i + 1)
    } else {
        seq![]
    }
}

/// An element that starts at `i` and is complete.
pub open spec fn well_placed(evs: Seq<EventView>, i: int) -> bool {
    &&& 0 <= i < evs.len()
    &&& is_start(evs[i])
    &&& elem_end(evs, i) is Some
}

/// Every position of `ks` is a complete element, a text or a CDATA section.
pub open spec fn items_placed(evs: Seq<EventView>, ks: Seq<int>) -> bool {
    forall|k: int|
        0 <= k < ks.len() ==> {
            &&& 0 <= #[trigger] ks[k] < evs.len()
            &&& (is_start(evs[ks[k]]) ==> elem_end(evs, ks[k]) is Some)
            &&& (!is_start(evs[ks[k]]) ==> evs[ks[k]] is Text || evs[ks[k]] is CData)
        }
}

/// A complete element ends after it starts and within the events.
pub proof fn lemma_elem_end_bounds(evs: Seq<EventView>, i: int)
    ensures
        elem_end(evs, i) matches Some(j) ==> i < j <= evs.len(),
    decreases evs.len() - i, 0int,
{
    if 0 <= i < evs.len() {
        if let EventView::Open { name, .. } = evs[i] {
            lemma_content_end_bounds(evs, i + 1, name);
        }
    }
}

/// A complete content ends after it starts and within the events.
pub proof fn lemma_content_end_bounds(evs: Seq<EventView>, p: int, name: Seq<u8>)
    ensures
        content_end(evs, p, name) matches Some(j) ==> p < j <= evs.len(),
    decreases evs.len() - p, 1int,
{
    if 0 <= p < evs.len() {
        match evs[p] {
            EventView::Open { .. } => {
                lemma_elem_end_bounds(evs, p);
                if let Some(q) = elem_end(evs, p) {
                    if p < q <= evs.len() {
                        lemma_content_end_bounds(evs, q, name);
                    }
                }
            },
            EventView::Empty { .. } => lemma_content_end_bounds(evs, p + 1, name),
            EventView::Text { .. } => lemma_content_end_bounds(evs, p + 1, name),
            EventView::CData { .. } => lemma_content_end_bounds(evs, p + 1, name),
            _ => {},
        }
    }
}

/// The items of a complete content are complete elements, texts and CDATA
/// sections.
pub proof fn lemma_kids_placed(evs: Seq<EventView>, p: int, name: Seq<u8>)
    requires
        content_end(evs, p, name) is Some,
    ensures
        items_placed(evs, kids_from(evs, p)),
    decreases evs.len() - p,
{
    let ks = kids_from(evs, p);
    match evs[p] {
        EventView::Open { .. } => {
            lemma_elem_end_bounds(evs, p);
            let q = elem_end(evs, p)->Some_0;
            lemma_kids_placed(evs, q, name);
            assert forall|k: int| 0 <= k < ks.len() implies {
                &&& 0 <= #[trigger] ks[k] < evs.len()
                &&& (is_start(evs[ks[k]]) ==> elem_end(evs, ks[k]) is Some)
                &&& (!is_start(evs[ks[k]]) ==> evs[ks[k]] is Text || evs[ks[k]] is CData)
            } by {
                if k > 0 {
                    assert(ks[k] == kids_from(evs, q)[k - 1]);
                }
            }
        },
        EventView::Close { .. } => {},
        _ => {
            lemma_kids_placed(evs, p + 1, name);
            assert forall|k: int| 0 <= k < ks.len() implies {
                &&& 0 <= #[trigger] ks[k] < evs.len()
                &&& (is_start(evs[ks[k]]) ==> elem_end(evs, ks[k]) is Some)
                &&& (!is_start(evs[ks[k]]) ==> evs[ks[k]] is Text || evs[ks[k]] is CData)
            } by {
                if k > 0 {
                    assert(ks[k] == kids_from(evs, p + 1)[k - 1]);
                }
            }
        },
    }
}

/// The items of a complete element are complete elements, texts and CDATA
/// sections.
pub proof fn lemma_children_placed(evs: Seq<EventView>, i: int)
    requires
        well_placed(evs, i),
    ensures
        items_placed(evs, children(evs, i)),
{
    if let EventView::Open { name, .. } = evs[i] {
        lemma_kids_placed(evs, i + 1, name);
    }
}

/// Where the element that starts at `i` ends, if it is complete.
pub fn element_end(evs: &Vec<XmlEvent>, i: usize) -> (r: Option<usize>)
    ensures
        r matches Some(j) ==> elem_end(views(evs@), i as int) == Some(j as int),
        r is None ==> elem_end(views(evs@), i as int) is None,
    decreases views(evs@).len() - i,
{
    if i >= evs.len() {
        return None;
    }
    let name = match &evs[i] {
        XmlEvent::Empty { .. } => return Some(i + 1),
        XmlEvent::Open { name, .. } => name,
        _ => return None,
    };
    let mut p = i + 1;
    while p < evs.len()
        invariant
            i < p <= views(evs@).len(),
            views(evs@)[i as int] is Open,
            tag_bytes(views(evs@)[i as int]) == name@,
            elem_end(views(evs@), i as int) == content_end(views(evs@), p as int, name@),
        decreases views(evs@).len() - p,
    {
        match &evs[p] {
            XmlEvent::Close { name: m } => {
                if bytes_equal(m.as_slice(), name.as_slice()) {
                    return Some(p + 1);
                } else {
                    return None;
                }
            },
            XmlEvent::Open { .. } => {
                proof {
                    lemma_elem_end_bounds(views(evs@), p as int);
                }
                match element_end(evs, p) {
                    Some(q) => {
                        p = q;
                    },
                    None => return None,
                }
            },
            XmlEvent::Empty { .. } => {
                p = p + 1;
            },
            XmlEvent::Text { .. } => {
                p = p + 1;
            },
            XmlEvent::CData { .. } => {
                p = p + 1;
            },
            _ => return None,
        }
    }
    None
}

/// Positions of the items of a complete element, in document order.
pub fn child_positions(evs: &Vec<XmlEvent>, i: usize) -> (r: Vec<usize>)
    requires
        well_placed(views(evs@), i as int),
    ensures
        ints(r@) == children(views(evs@), i as int),
{
    let mut out: Vec<usize> = Vec::new();
    if let XmlEvent::Empty { .. } = &evs[i] {
        assert(ints(out@) =~= children(views(evs@), i as int));
        return out;
    }
    let ghost name = tag_bytes(views(evs@)[i as int]);
    assert(i < evs.len());
    let mut p = i + 1;
    proof {
        lemma_elem_end_bounds(views(evs@), i as int);
    }
    while p < evs.len()
        invariant
            i < p <= views(evs@).len(),
            views(evs@)[i as int] is Open,
            content_end(views(evs@), p as int, name) is Some,
            children(views(evs@), i as int) == ints(out@) + kids_from(
                views(evs@),
                p as int,
            ),
        decreases views(evs@).len() - p,
    {
        let ghost before = ints(out@);
        match &evs[p] {
            XmlEvent::Close { .. } => {
                assert(kids_from(views(evs@), p as int) =~= seq![]);
                assert(children(views(evs@), i as int) =~= ints(out@));
                return out;
            },
            XmlEvent::Open { .. } => {
                proof {
                    lemma_elem_end_bounds(views(evs@), p as int);
                }
                match element_end(evs, p) {
                    Some(q) => {
                        out.push(p);
                        assert(ints(out@) =~= before.push(p as int));
                        assert(seq![p as int] + kids_from(views(evs@), q as int) == kids_from(
                            views(evs@),
                            p as int,
                        ));
                        assert(children(views(evs@), i as int) =~= ints(out@)
                            + kids_from(views(evs@), q as int));
                        p = q;
                    },
                    None => {
                        assert(false);
                        return out;
                    },
                }
            },
            _ => {
                out.push(p);
                assert(ints(out@) =~= before.push(p as int));
                assert(children(views(evs@), i as int) =~= ints(out@)
                    + kids_from(views(evs@), p + 1));
                p = p + 1;
            },
        }
    }
    out
}

/// Position of the root element: the first start tag, when only whitespace
/// text precedes it.
pub open spec fn root_from(evs: Seq<EventView>, p: int) -> Option<int>
    decreases evs.len() - p,
{
    if 0 <= p < evs.len() {
        match evs[p] {
            EventView::Open { .. } => Some(p),
            EventView::Empty { .. } => Some(p),
            EventView::Text { raw } => if all_space(raw) {
                root_from(evs, p + 1)
            } else {
                None
            },
            _ => None,
        }
    } else {
        None
    }
}

/// The root element found from `p` on is a start tag at or after `p`.
pub proof fn lemma_root_from_bounds(evs: Seq<EventView>, p: int)
    requires
        0 <= p,
    ensures
        root_from(evs, p) matches Some(r) ==> p <= r < evs.len() && is_start(evs[r]),
    decreases evs.len() - p,
{
    if 0 <= p < evs.len() {
        if let EventView::Text { .. } = evs[p] {
            lemma_root_from_bounds(evs, p + 1);
        }
    }
}

/// Position of the root element of a document.
pub fn root_position(evs: &Vec<XmlEvent>) -> (r: Option<usize>)
    ensures
        r matches Some(p) ==> root_from(views(evs@), 0) == Some(p as int),
        r is None ==> root_from(views(evs@), 0) is None,
{
    let mut p: usize = 0;
    while p < evs.len()
        invariant
            0 <= p <= views(evs@).len(),
            root_from(views(evs@), 0) == root_from(views(evs@), p as int),
        decreases views(evs@).len() - p,
    {
        match &evs[p] {
            XmlEvent::Open { .. } => return Some(p),
            XmlEvent::Empty { .. } => return Some(p),
            XmlEvent::Text { raw } => {
                if !is_all_space(raw.as_slice()) {
                    return None;
                }
            },
            _ => return None,
        }
        p = p + 1;
    }
    None
}

/// The items of a content lie at or after its start.
pub proof fn lemma_kids_after(evs: Seq<EventView>, p: int)
    ensures
        forall|k: int| 0 <= k < kids_from(evs, p).len() ==> #[trigger] kids_from(evs, p)[k] >= p,
    decreases evs.len() - p,
{
    let ks = kids_from(evs, p);
    if 0 <= p < evs.len() {
        match evs[p] {
            EventView::Open { .. } => {
                lemma_elem_end_bounds(evs, p);
                if let Some(q) = elem_end(evs, p) {
                    if p < q <= evs.len() {
                        lemma_kids_after(evs, q);
                        assert forall|k: int| 0 <= k < ks.len() implies #[trigger] ks[k] >= p by {
                            if k > 0 {
                                assert(ks[k] == kids_from(evs, q)[k - 1]);
                            }
                        }
                    }
                }
            },
            EventView::Close { .. } => {},
            EventView::Eof => {},
            EventView::Failed => {},
            _ => {
                lemma_kids_after(evs, p + 1);
                assert forall|k: int| 0 <= k < ks.len() implies #[trigger] ks[k] >= p by {
                    if k > 0 {
                        assert(ks[k] == kids_from(evs, p + 1)[k - 1]);
                    }
                }
            },
        }
    }
}

/// The items of an element lie after its start tag.
pub proof fn lemma_children_after(evs: Seq<EventView>, i: int)
    ensures
        forall|k: int| 0 <= k < children(evs, i).len() ==> #[trigger] children(evs, i)[k] > i,
{
    if 0 <= i < evs.len() && evs[i] is Open {
        lemma_kids_after(evs, i + 1);
    }
}

} // verus!
