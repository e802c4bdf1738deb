//! The Pagination/Extraction Engine: scans the visible table for cells whose
//! text equals the completion marker, extracts one record per match from the
//! row's detail view, and when no match remains consults the pagination
//! control — advancing while it is enabled, terminating when it signals the
//! disabled state. A missing required element aborts the run.

use vstd::prelude::*;

use crate::record::{ParcelRecord, ParcelRecordModel};
use crate::text::{contains_substr, find_exact, is_substring};
use crate::ui::{RunError, UiTarget};

verus! {

/// The pagination control's state attribute signals the disabled state when
/// it contains the disabled token.
pub open spec fn signals_disabled(class_attr: Seq<char>) -> bool {
    is_substring(class_attr, "disabled"@)
}

/// Reads the disabled state out of the control's state attribute.
pub fn class_signals_disabled(class_attr: &str) -> (r: bool)
    ensures
        r == signals_disabled(class_attr@),
{
    contains_substr(class_attr, "disabled")
}

/// What the engine does with the current page: extract from the first
/// matching row, or — only when no cell matches — consult the next control.
#[derive(Clone, Copy, Debug, PartialEq, Eq, Structural)]
pub enum PageDecision {
    /// Extract from the row of the matching cell at this index.
    ExtractRow(usize),
    /// No cell matches: check the pagination control, exactly once.
    ConsultNext,
}

/// Decides the engine's step on the current page's cells: on a page with at
/// least one cell equal to the marker, extract from the first such cell in
/// document order; on a page with none, consult the next control — never
/// extract.
pub fn page_decision(cells: &Vec<String>, marker: &String) -> (d: PageDecision)
    ensures
        match d {
            PageDecision::ExtractRow(i) => i < cells@.len() && cells@[i as int]@ == marker@
                && forall|j: int| 0 <= j < i ==> cells@[j]@ != marker@,
            PageDecision::ConsultNext => forall|j: int|
                0 <= j < cells@.len() ==> cells@[j]@ != marker@,
        },
{
    match find_exact(cells, marker) {
        Some(i) => PageDecision::ExtractRow(i),
        None => PageDecision::ConsultNext,
    }
}

/// The outcome of consulting a pagination control that was found.
#[derive(Clone, Copy, Debug, PartialEq, Eq, Structural)]
pub enum NextStep {
    /// The control is enabled: activate it and rescan on the new page.
    AdvancePage,
    /// The control signals the disabled state: no further pages — the one
    /// normal termination of the loop.
    Stop,
}

/// Decides from the looked-up pagination control whether the loop advances or
/// terminates. A control that was not found at all is a hard failure,
/// distinguished from one found in the disabled state, which is the designed
/// exit path.
pub fn next_decision(next_class: Option<&String>) -> (r: Result<NextStep, RunError>)
    ensures
        next_class is None ==> (r matches Err(e) && e.missing == UiTarget::NextControl),
        next_class matches Some(c) ==> (r matches Ok(s) && ((s == NextStep::Stop) <==> signals_disabled(
            c@,
        ))),
{
    match next_class {
        None => Err(RunError { missing: UiTarget::NextControl }),
        Some(c) => {
            if class_signals_disabled(c.as_str()) {
                Ok(NextStep::Stop)
            } else {
                Ok(NextStep::AdvancePage)
            }
        },
    }
}

/// Builds one record from a matched row's detail view: description from the
/// first detail entry, code from the content of the last, receiver from the
/// separate receiver cell. An absent receiver cell or an empty detail row
/// group is a hard failure.
pub fn make_record(detail_rows: &Vec<String>, receiver_cell: Option<&String>) -> (r: Result<
    ParcelRecord,
    RunError,
>)
    ensures
        receiver_cell is None ==> (r matches Err(e) && e.missing == UiTarget::ReceiverCell),
        receiver_cell is Some && detail_rows@.len() == 0 ==> (r matches Err(e) && e.missing
            == UiTarget::DetailRows),
        receiver_cell matches Some(rc) ==> (detail_rows@.len() > 0 ==> (r matches Ok(rec)
            && rec@.description == detail_rows@[0]@ && rec@.code == detail_rows@[detail_rows@.len()
            - 1]@ && rec@.receiver == rc@)),
{
    match receiver_cell {
        None => Err(RunError { missing: UiTarget::ReceiverCell }),
        Some(rc) => {
            if detail_rows.len() == 0 {
                Err(RunError { missing: UiTarget::DetailRows })
            } else {
                Ok(
                    ParcelRecord {
                        receiver: rc.clone(),
                        description: detail_rows[0].clone(),
                        code: detail_rows[detail_rows.len() - 1].clone(),
                    },
                )
            }
        },
    }
}

/// One results row as the engine observes it: the text of its marker cell,
/// the entries of its detail row group, and the receiver cell when its lookup
/// succeeds.
#[derive(Debug)]
pub struct RowModel {
    pub marker_cell: String,
    pub detail_rows: Vec<String>,
    pub receiver_cell: Option<String>,
}

/// Mathematical model of a `RowModel`.
pub struct RowModelView {
    pub marker_cell: Seq<char>,
    pub detail_rows: Seq<Seq<char>>,
    pub receiver_cell: Option<Seq<char>>,
}

impl View for RowModel {
    type V = RowModelView;

    open spec fn view(&self) -> RowModelView {
        RowModelView {
            marker_cell: self.marker_cell@,
            detail_rows: self.detail_rows.deep_view(),
            receiver_cell: self.receiver_cell.deep_view(),
        }
    }
}

impl DeepView for RowModel {
    type V = RowModelView;

    open spec fn deep_view(&self) -> RowModelView {
        self.view()
    }
}

/// One results page as the engine observes it: its rows and the pagination
/// control's state attribute (`None` when the control was not found).
#[derive(Debug)]
pub struct PageModel {
    pub rows: Vec<RowModel>,
    pub next_class: Option<String>,
}

/// Mathematical model of a `PageModel`.
pub struct PageModelView {
    pub rows: Seq<RowModelView>,
    pub next_class: Option<Seq<char>>,
}

impl View for PageModel {
    type V = PageModelView;

    open spec fn view(&self) -> PageModelView {
        PageModelView { rows: self.rows.deep_view(), next_class: self.next_class.deep_view() }
    }
}

impl DeepView for PageModel {
    type V = PageModelView;

    open spec fn deep_view(&self) -> PageModelView {
        self.view()
    }
}

/// The element whose lookup fails on a matched row, if any: the receiver
/// cell, else an empty detail row group.
pub open spec fn row_missing(row: RowModelView) -> Option<UiTarget> {
    if row.receiver_cell is None {
        Some(UiTarget::ReceiverCell)
    } else if row.detail_rows.len() == 0 {
        Some(UiTarget::DetailRows)
    } else {
        None
    }
}

/// The record a well-formed matched row yields.
pub open spec fn row_record(row: RowModelView) -> ParcelRecordModel {
    ParcelRecordModel {
        receiver: match row.receiver_cell {
            Some(rc) => rc,
            None => Seq::empty(),
        },
        description: row.detail_rows.first(),
        code: row.detail_rows.last(),
    }
}

/// What scanning one page yields: one record per row whose marker cell equals
/// the marker, in document order, or the first matched row's lookup failure.
pub open spec fn scan_page(rows: Seq<RowModelView>, marker: Seq<char>) -> Result<
    Seq<ParcelRecordModel>,
    RunError,
>
    decreases rows.len(),
{
    if rows.len() == 0 {
        Ok(Seq::empty())
    } else if rows.first().marker_cell == marker {
        match row_missing(rows.first()) {
            Some(t) => Err(RunError { missing: t }),
            None => match scan_page(rows.drop_first(), marker) {
                Ok(rest) => Ok(seq![row_record(rows.first())] + rest),
                Err(e) => Err(e),
            },
        }
    } else {
        scan_page(rows.drop_first(), marker)
    }
}

/// What the whole pagination loop yields on a run of observed pages: the
/// records of each page's matching rows, accumulated until the first page
/// whose control signals the disabled state; an absent control, or a failed
/// lookup on a matched row, aborts with that failure.
pub open spec fn run_pages(pages: Seq<PageModelView>, marker: Seq<char>) -> Result<
    Seq<ParcelRecordModel>,
    RunError,
>
    decreases pages.len(),
{
    if pages.len() == 0 {
        Ok(Seq::empty())
    } else {
        match scan_page(pages.first().rows, marker) {
            Err(e) => Err(e),
            Ok(recs) => match pages.first().next_class {
                None => Err(RunError { missing: UiTarget::NextControl }),
                Some(c) => if signals_disabled(c) {
                    Ok(recs)
                } else {
                    match run_pages(pages.drop_first(), marker) {
                        Ok(rest) => Ok(recs + rest),
                        Err(e) => Err(e),
                    }
                },
            },
        }
    }
}

/// The page's control, looked up after its matches are exhausted, lets the
/// loop advance: found and not signalling the disabled state.
pub open spec fn page_advances(page: PageModelView) -> bool {
    page.next_class matches Some(c) && !signals_disabled(c)
}

/// Scans one page: emits one record per matching row, in document order, and
/// aborts on the first matched row whose detail or receiver lookup fails.
pub fn extract_page(rows: &Vec<RowModel>, marker: &String) -> (r: Result<
    Vec<ParcelRecord>,
    RunError,
>)
    ensures
        scan_page(rows.deep_view(), marker@) matches Ok(s) ==> (r matches Ok(v) && v.deep_view()
            == s),
        scan_page(rows.deep_view(), marker@) matches Err(e) ==> (r matches Err(e2) && e2 == e),
{
    let ghost rv = rows.deep_view();
    let mut out: Vec<ParcelRecord> = Vec::new();
    let n: usize = rows.len();
    proof {
        assert(rv.skip(0) =~= rv);
        assert(out.deep_view() =~= Seq::<ParcelRecordModel>::empty());
    }
    for i in 0..n
        invariant
            n == rows@.len(),
            rv == rows.deep_view(),
            rv.len() == n,
            scan_page(rv.skip(i as int), marker@) matches Ok(s2) ==> scan_page(rv, marker@)
                == Ok::<Seq<ParcelRecordModel>, RunError>(out.deep_view() + s2),
            scan_page(rv.skip(i as int), marker@) matches Err(e) ==> scan_page(rv, marker@)
                == scan_page(rv.skip(i as int), marker@),
    {
        let ghost tail = rv.skip(i as int);
        proof {
            assert(tail.first() == rv[i as int]);
            assert(tail.drop_first() =~= rv.skip(i as int + 1));
            assert(rv[i as int] == rows@[i as int].deep_view());
        }
        let row = &rows[i];
        if row.marker_cell == *marker {
            match make_record(&row.detail_rows, row.receiver_cell.as_ref()) {
                Ok(rec) => {
                    proof {
                        assert(row_missing(rv[i as int]) is None);
                        assert(rec@ == row_record(rv[i as int]));
                    }
                    let ghost out0 = out.deep_view();
                    out.push(rec);
                    proof {
                        assert(out.deep_view() =~= out0 + seq![row_record(rv[i as int])]);
                        if scan_page(rv.skip(i as int + 1), marker@) is Ok {
                            let s2 = scan_page(rv.skip(i as int + 1), marker@)->Ok_0;
                            assert(scan_page(tail, marker@) == Ok::<
                                Seq<ParcelRecordModel>,
                                RunError,
                            >(seq![row_record(rv[i as int])] + s2));
                            assert(out0 + (seq![row_record(rv[i as int])] + s2) =~= out.deep_view()
                                + s2);
                        }
                    }
                },
                Err(e) => {
                    proof {
                        assert(row_missing(rv[i as int]) matches Some(t) && e.missing == t);
                        assert(scan_page(tail, marker@) == Err::<Seq<ParcelRecordModel>, RunError>(
                            e,
                        ));
                    }
                    return Err(e);
                },
            }
        } else {
            proof {
                assert(rv[i as int].marker_cell != marker@);
                assert(scan_page(tail, marker@) == scan_page(rv.skip(i as int + 1), marker@));
            }
        }
    }
    proof {
        assert(rv.skip(n as int) =~= Seq::<RowModelView>::empty());
        assert(scan_page(rv.skip(n as int), marker@) == Ok::<Seq<ParcelRecordModel>, RunError>(
            Seq::<ParcelRecordModel>::empty(),
        ));
        assert(out.deep_view() + Seq::<ParcelRecordModel>::empty() =~= out.deep_view());
    }
    Ok(out)
}

/// Runs the pagination loop over the observed pages: extracts every page's
/// matching rows, then consults the page's control — advancing while it is
/// enabled and terminating exactly when a control signals the disabled state
/// on a page with no match left. The run of pages is finite and ends with a
/// page that does not advance, so the loop terminates.
pub fn run_extraction(pages: &Vec<PageModel>, marker: &String) -> (r: Result<
    Vec<ParcelRecord>,
    RunError,
>)
    requires
        pages@.len() > 0,
        !page_advances(pages.deep_view().last()),
    ensures
        run_pages(pages.deep_view(), marker@) matches Ok(s) ==> (r matches Ok(v) && v.deep_view()
            == s),
        run_pages(pages.deep_view(), marker@) matches Err(e) ==> (r matches Err(e2) && e2 == e),
{
    let ghost pv = pages.deep_view();
    let np: usize = pages.len();
    let mut out: Vec<ParcelRecord> = Vec::new();
    let mut i: usize = 0;
    proof {
        assert(pv.skip(0) =~= pv);
        assert(pv.len() == pages@.len());
        assert(out.deep_view() =~= Seq::<ParcelRecordModel>::empty());
    }
    loop
        invariant
            i < pages@.len(),
            np == pages@.len(),
            pv == pages.deep_view(),
            pv.len() == pages@.len(),
            !page_advances(pv.last()),
            run_pages(pv.skip(i as int), marker@) matches Ok(s2) ==> run_pages(pv, marker@)
                == Ok::<Seq<ParcelRecordModel>, RunError>(out.deep_view() + s2),
            run_pages(pv.skip(i as int), marker@) matches Err(e) ==> run_pages(pv, marker@)
                == run_pages(pv.skip(i as int), marker@),
        decreases pv.len() - i,
    {
        let ghost tail = pv.skip(i as int);
        proof {
            assert(tail.first() == pv[i as int]);
            assert(tail.drop_first() =~= pv.skip(i as int + 1));
            assert(pv[i as int] == pages@[i as int].deep_view());
        }
        let page = &pages[i];
        match extract_page(&page.rows, marker) {
            Err(e) => {
                proof {
                    assert(page.rows.deep_view() == pv[i as int].rows);
                    assert(scan_page(tail.first().rows, marker@) matches Err(e0) && e0 == e);
                    assert(run_pages(tail, marker@) == Err::<Seq<ParcelRecordModel>, RunError>(e));
                }
                return Err(e);
            },
            Ok(mut recs) => {
                let ghost s = recs.deep_view();
                proof {
                    assert(page.rows.deep_view() == pv[i as int].rows);
                    assert(scan_page(tail.first().rows, marker@) matches Ok(s0) && s0 == s);
                }
                let ghost out0 = out.deep_view();
                out.append(&mut recs);
                proof {
                    assert(out.deep_view() =~= out0 + s);
                }
                match &page.next_class {
                    None => {
                        proof {
                            assert(pv[i as int].next_class is None);
                            assert(run_pages(tail, marker@) == Err::<
                                Seq<ParcelRecordModel>,
                                RunError,
                            >(RunError { missing: UiTarget::NextControl }));
                        }
                        return Err(RunError { missing: UiTarget::NextControl });
                    },
                    Some(c) => {
                        proof {
                            assert(pv[i as int].next_class matches Some(cm) && cm == c@);
                        }
                        if class_signals_disabled(c.as_str()) {
                            proof {
                                assert(run_pages(tail, marker@) == Ok::<
                                    Seq<ParcelRecordModel>,
                                    RunError,
                                >(s));
                                assert(out0 + s =~= out.deep_view());
                            }
                            return Ok(out);
                        } else {
                            proof {
                                assert(page_advances(pv[i as int]));
                                if i + 1 == pv.len() {
                                    assert(pv[i as int] == pv.last());
                                    assert(false);
                                }
                                if run_pages(pv.skip(i as int + 1), marker@) is Ok {
                                    let rest = run_pages(pv.skip(i as int + 1), marker@)->Ok_0;
                                    assert(run_pages(tail, marker@) == Ok::<
                                        Seq<ParcelRecordModel>,
                                        RunError,
                                    >(s + rest));
                                    assert(out0 + (s + rest) =~= out.deep_view() + rest);
                                }
                            }
                            i = i + 1;
                        }
                    },
                }
            },
        }
    }
}

/// The run stops at page `k`: that page's control was found signalling the
/// disabled state — after the page's matches were exhausted — and every
/// earlier page advanced.
pub open spec fn stops_at(pages: Seq<PageModelView>, k: int) -> bool {
    &&& 0 <= k < pages.len()
    &&& pages[k].next_class matches Some(c) && signals_disabled(c)
    &&& forall|j: int| 0 <= j < k ==> page_advances(pages[j])
}

/// The loop terminates normally only by the designed exit: a run over a
/// finite run of pages ending in one that does not advance completes without
/// failure exactly by reaching a page whose control was found disabled once
/// no match was left, every earlier page having advanced.
pub proof fn lemma_normal_termination(pages: Seq<PageModelView>, marker: Seq<char>)
    requires
        pages.len() > 0,
        !page_advances(pages.last()),
    ensures
        run_pages(pages, marker) is Ok ==> exists|k: int| stops_at(pages, k),
    decreases pages.len(),
{
    if run_pages(pages, marker) is Ok {
        let first = pages.first();
        assert(scan_page(first.rows, marker) is Ok);
        if page_advances(first) {
            if pages.len() == 1 {
                assert(first == pages.last());
                assert(false);
            }
            let rest = pages.drop_first();
            assert(rest.last() == pages.last());
            lemma_normal_termination(rest, marker);
            assert(run_pages(rest, marker) is Ok);
            let k2 = choose|k: int| stops_at(rest, k);
            assert(rest[k2] == pages[k2 + 1]);
            assert forall|j: int| 0 <= j < k2 + 1 implies page_advances(pages[j]) by {
                if j > 0 {
                    assert(rest[j - 1] == pages[j]);
                }
            }
            assert(stops_at(pages, k2 + 1));
        } else {
            assert(first.next_class is Some);
            assert(stops_at(pages, 0));
        }
    }
}

/// The rows of `rows` whose marker cell equals the marker, in document order.
pub open spec fn matching_rows(rows: Seq<RowModelView>, marker: Seq<char>) -> Seq<RowModelView>
    decreases rows.len(),
{
    if rows.len() == 0 {
        Seq::empty()
    } else if rows.first().marker_cell == marker {
        seq![rows.first()] + matching_rows(rows.drop_first(), marker)
    } else {
        matching_rows(rows.drop_first(), marker)
    }
}

/// On a page with no cell equal to the marker, the scan extracts nothing and
/// cannot fail: the engine only consults the pagination control there.
pub proof fn lemma_no_match_no_records(rows: Seq<RowModelView>, marker: Seq<char>)
    requires
        forall|i: int| 0 <= i < rows.len() ==> rows[i].marker_cell != marker,
    ensures
        scan_page(rows, marker) == Ok::<Seq<ParcelRecordModel>, RunError>(
            Seq::<ParcelRecordModel>::empty(),
        ),
    decreases rows.len(),
{
    if rows.len() > 0 {
        assert(rows[0].marker_cell != marker);
        assert(forall|i: int|
            0 <= i < rows.drop_first().len() ==> rows.drop_first()[i].marker_cell != marker);
        lemma_no_match_no_records(rows.drop_first(), marker);
    }
}

/// A successful scan emits exactly one record per matching row, in document
/// order, each derived from its own row — the first matching cell first.
pub proof fn lemma_one_record_per_match(rows: Seq<RowModelView>, marker: Seq<char>)
    ensures
        scan_page(rows, marker) matches Ok(s) ==> s.len() == matching_rows(rows, marker).len()
            && forall|k: int|
            0 <= k < s.len() ==> s[k] == row_record(matching_rows(rows, marker)[k]),
    decreases rows.len(),
{
    if rows.len() > 0 {
        lemma_one_record_per_match(rows.drop_first(), marker);
        if rows.first().marker_cell == marker {
            if scan_page(rows, marker) is Ok {
                let s = scan_page(rows, marker)->Ok_0;
                let rest = scan_page(rows.drop_first(), marker);
                assert(rest is Ok && s == seq![row_record(rows.first())] + rest->Ok_0);
                assert(matching_rows(rows, marker) == seq![rows.first()] + matching_rows(
                    rows.drop_first(),
                    marker,
                ));
                assert forall|k: int| 0 <= k < s.len() implies s[k] == row_record(
                    matching_rows(rows, marker)[k],
                ) by {
                    if k > 0 {
                        assert(s[k] == rest->Ok_0[k - 1]);
                        assert(matching_rows(rows, marker)[k] == matching_rows(
                            rows.drop_first(),
                            marker,
                        )[k - 1]);
                    }
                }
            }
        }
    }
}

} // verus!
