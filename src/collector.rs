use vstd::prelude::*;
use vstd::relations::{sorted_by, total_ordering};
use vstd::seq_lib::{group_to_multiset_ensures, lemma_sorted_unique};

verus! {

/// The order of a report: ascending port number.
pub open spec fn port_order() -> spec_fn(u16, u16) -> bool {
    |a: u16, b: u16| a <= b
}

/// The report made from the ports that arrived, in whatever order they came:
/// the same ports, ascending.
pub open spec fn report_of(arrivals: Seq<u16>) -> Seq<u16> {
    arrivals.sort_by(port_order())
}

/// `port_order` is a total order, so the report is well defined.
pub proof fn lemma_port_order_total()
    ensures
        total_ordering(port_order()),
{
}

/// A sequence that is ascending and holds the same ports as `arrivals` is the
/// report of `arrivals`.
pub proof fn lemma_report_unique(arrivals: Seq<u16>, s: Seq<u16>)
    requires
        sorted_by(s, port_order()),
        s.to_multiset() == arrivals.to_multiset(),
    ensures
        s == report_of(arrivals),
{
    lemma_port_order_total();
    arrivals.lemma_sort_by_ensures(port_order());
    lemma_sorted_unique(s, report_of(arrivals), port_order());
}

/// Gathers the open ports that probes report, in the order they arrive, and
/// turns them into the report once no more can come.
pub struct Collector {
    found: Vec<u16>,
}

impl View for Collector {
    type V = Seq<u16>;

    /// The ports gathered so far, in order of arrival.
    closed spec fn view(&self) -> Seq<u16> {
        self.found@
    }
}

impl Collector {
    /// A collector that has gathered nothing.
    pub fn new() -> (r: Collector)
        ensures
            r@ == Seq::<u16>::empty(),
    {
        Collector { found: Vec::new() }
    }

    /// Records one port that a probe found open.
    pub fn record(&mut self, port: u16)
        ensures
            final(self)@ == old(self)@.push(port),
    {
        self.found.push(port);
    }

    /// How many ports have been gathered.
    pub fn len(&self) -> (r: usize)
        ensures
            r == self@.len(),
    {
        self.found.len()
    }

    /// Ends the collection: the gathered ports, ascending.
    pub fn finish(self) -> (r: Vec<u16>)
        ensures
            r@ == report_of(self@),
    {
        let found = self.found;
        let mut sorted: Vec<u16> = Vec::new();
        let mut k: usize = 0;
        proof {
            broadcast use group_to_multiset_ensures;

            assert(found@.subrange(0, 0) =~= sorted@);
        }
        while k < found.len()
            invariant
                k <= found@.len(),
                sorted@.len() == k,
                sorted_by(sorted@, port_order()),
                sorted@.to_multiset() == found@.subrange(0, k as int).to_multiset(),
            decreases found@.len() - k,
        {
            let x = found[k];
            let mut j: usize = sorted.len();
            while j > 0 && sorted[j - 1] > x
                invariant
                    j <= sorted@.len(),
                    forall|i: int| j <= i < sorted@.len() ==> sorted@[i] > x,
                decreases j,
            {
                j = j - 1;
            }
            proof {
                assert forall|i: int| 0 <= i < j implies sorted@[i] <= x by {
                    assert(port_order()(sorted@[i], sorted@[j - 1]));
                }
            }
            let ghost before = sorted@;
            sorted.insert(j, x);
            proof {
                broadcast use group_to_multiset_ensures;

                assert(sorted@ =~= before.insert(j as int, x));
                assert forall|a: int, b: int| 0 <= a < b < sorted@.len() implies #[trigger] port_order()(
                    sorted@[a],
                    sorted@[b],
                ) by {
                    if b < j {
                        assert(port_order()(before[a], before[b]));
                    } else if a > j {
                        assert(port_order()(before[a - 1], before[b - 1]));
                    }
                }
                assert(found@.subrange(0, k + 1) =~= found@.subrange(0, k as int).push(x));
            }
            k = k + 1;
        }
        proof {
            assert(found@.subrange(0, k as int) =~= found@);
            lemma_report_unique(found@, sorted@);
        }
        sorted
    }
}

} // verus!
