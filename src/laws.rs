use vstd::prelude::*;
use vstd::relations::sorted_by;
use vstd::seq_lib::group_to_multiset_ensures;
use vstd::set_lib::lemma_len_subset;

use crate::collector::{lemma_port_order_total, lemma_report_unique, port_order, report_of};
use crate::request::port_range;

verus! {

/// Whether a listener is bound at port `p` and `p` lies in the scanned range
/// `[start, end)`.
pub open spec fn listens_in_range(p: u16, start: u16, end: u16, listening: Set<u16>) -> bool {
    start <= p < end && listening.contains(p)
}

/// The ports of `[start, end)` at which a listener is bound.
pub open spec fn listeners_in(start: u16, end: u16, listening: Set<u16>) -> Set<u16> {
    Set::new(|p: u16| listens_in_range(p, start, end, listening))
}

/// `arrivals` is an order in which the probes of a scan of `[start, end)` can
/// hand their ports to the collector, when the ports in `listening` accept a
/// connection: each port of the range with a listener exactly once, and no
/// other port.
pub open spec fn is_arrival_order(
    arrivals: Seq<u16>,
    start: u16,
    end: u16,
    listening: Set<u16>,
) -> bool {
    &&& arrivals.no_duplicates()
    &&& forall|p: u16| #[trigger] arrivals.contains(p) <==> listens_in_range(p, start, end, listening)
}

/// Each port is strictly smaller than the next.
pub open spec fn strictly_ascending(s: Seq<u16>) -> bool {
    forall|i: int, j: int| 0 <= i < j < s.len() ==> s[i] < s[j]
}

/// The report lists each port of the range with a listener exactly once, and
/// no port without one.
pub proof fn lemma_report_lists_listeners(
    start: u16,
    end: u16,
    listening: Set<u16>,
    arrivals: Seq<u16>,
)
    requires
        is_arrival_order(arrivals, start, end, listening),
    ensures
        forall|p: u16|
            listens_in_range(p, start, end, listening) ==> #[trigger] report_of(
                arrivals,
            ).to_multiset().count(p) == 1,
        forall|p: u16|
            !listens_in_range(p, start, end, listening) ==> !#[trigger] report_of(
                arrivals,
            ).contains(p),
{
    broadcast use group_to_multiset_ensures;

    lemma_port_order_total();
    arrivals.lemma_sort_by_ensures(port_order());
    arrivals.lemma_multiset_has_no_duplicates();
    let r = report_of(arrivals);
    assert forall|p: u16| listens_in_range(p, start, end, listening) implies #[trigger] r.to_multiset().count(p) == 1 by {
        assert(arrivals.contains(p));
        assert(arrivals.to_multiset().contains(p));
    }
    assert forall|p: u16| !listens_in_range(p, start, end, listening) implies !#[trigger] r.contains(p) by {
        assert(!arrivals.contains(p));
        assert(r.to_multiset().count(p) == 0);
    }
}

/// Whatever the order in which the probes report, the report is strictly
/// ascending: sorted, with no port twice.
pub proof fn lemma_report_strictly_ascending(
    start: u16,
    end: u16,
    listening: Set<u16>,
    arrivals: Seq<u16>,
)
    requires
        is_arrival_order(arrivals, start, end, listening),
    ensures
        strictly_ascending(report_of(arrivals)),
{
    broadcast use group_to_multiset_ensures;

    lemma_port_order_total();
    arrivals.lemma_sort_by_ensures(port_order());
    arrivals.lemma_multiset_has_no_duplicates();
    let r = report_of(arrivals);
    assert forall|p: u16| r.to_multiset().contains(p) implies r.to_multiset().count(p) == 1 by {}
    r.lemma_multiset_has_no_duplicates_conv();
    assert forall|i: int, j: int| 0 <= i < j < r.len() implies r[i] < r[j] by {
        assert(port_order()(r[i], r[j]));
    }
}

/// A scan of an empty range probes no port, writes no progress mark and
/// reports nothing.
pub proof fn lemma_empty_range(port: u16, listening: Set<u16>, arrivals: Seq<u16>)
    requires
        is_arrival_order(arrivals, port, port, listening),
    ensures
        port_range(port, port).len() == 0,
        arrivals.len() == 0,
        report_of(arrivals).len() == 0,
{
    broadcast use group_to_multiset_ensures;

    if arrivals.len() > 0 {
        assert(arrivals.contains(arrivals[0]));
    }
    lemma_port_order_total();
    arrivals.lemma_sort_by_ensures(port_order());
    assert(report_of(arrivals).to_multiset().len() == arrivals.to_multiset().len());
}

/// Two scans of the same range against the same listeners give the same
/// report, whatever order their probes reported in.
pub proof fn lemma_scan_idempotent(
    start: u16,
    end: u16,
    listening: Set<u16>,
    first: Seq<u16>,
    second: Seq<u16>,
)
    requires
        is_arrival_order(first, start, end, listening),
        is_arrival_order(second, start, end, listening),
    ensures
        report_of(first) == report_of(second),
{
    broadcast use group_to_multiset_ensures;

    first.lemma_multiset_has_no_duplicates();
    second.lemma_multiset_has_no_duplicates();
    assert(first.to_multiset() =~= second.to_multiset()) by {
        assert forall|p: u16| first.to_multiset().count(p) == second.to_multiset().count(p) by {
            if first.contains(p) {
                assert(second.contains(p));
            } else {
                assert(!second.contains(p));
            }
        }
    }
    lemma_port_order_total();
    first.lemma_sort_by_ensures(port_order());
    lemma_report_unique(second, report_of(first));
}

/// The range `[start, end)` holds each of its ports once.
proof fn lemma_port_range_set(start: u16, end: u16)
    ensures
        port_range(start, end).no_duplicates(),
        forall|p: u16| #[trigger] port_range(start, end).contains(p) <==> start <= p < end,
        port_range(start, end).to_set().len() == port_range(start, end).len(),
{
    let s = port_range(start, end);
    assert forall|p: u16| start <= p < end implies #[trigger] s.contains(p) by {
        assert(s[p - start] == p);
    }
    assert forall|i: int, j: int| 0 <= i < s.len() && 0 <= j < s.len() && i != j implies s[i]
        != s[j] by {}
    s.unique_seq_to_set();
}

/// The report has one line for each port of the range with a listener, and so
/// never more lines than the range has ports.
pub proof fn lemma_report_counts_listeners(
    start: u16,
    end: u16,
    listening: Set<u16>,
    arrivals: Seq<u16>,
)
    requires
        is_arrival_order(arrivals, start, end, listening),
    ensures
        report_of(arrivals).len() == listeners_in(start, end, listening).len(),
        listeners_in(start, end, listening).len() <= port_range(start, end).len(),
{
    broadcast use group_to_multiset_ensures;

    lemma_port_order_total();
    arrivals.lemma_sort_by_ensures(port_order());
    assert(arrivals.to_set() =~= listeners_in(start, end, listening));
    arrivals.unique_seq_to_set();
    assert(report_of(arrivals).to_multiset().len() == arrivals.to_multiset().len());
    lemma_port_range_set(start, end);
    let range = port_range(start, end).to_set();
    assert(listeners_in(start, end, listening).subset_of(range));
    lemma_len_subset(listeners_in(start, end, listening), range);
}

} // verus!
