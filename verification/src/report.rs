use vstd::prelude::*;

verus! {

/// The entries whose upload did not come back successful, kept as the
/// original input strings, in input order.  Failures are reported, never
/// retried, and do not stop the loop.
pub struct UploadReport {
    pub failed_ips: Vec<String>,
}

/// The inputs whose outcome was a failure, in order, as original strings.
pub open spec fn spec_failed_entries(entries: Seq<String>, succeeded: Seq<bool>) -> Seq<String>
    decreases entries.len(),
{
    if entries.len() == 0 || succeeded.len() == 0 {
        Seq::empty()
    } else {
        let rest = spec_failed_entries(entries.drop_last(), succeeded.drop_last());
        if succeeded.last() {
            rest
        } else {
            rest.push(entries.last())
        }
    }
}

impl UploadReport {
    pub fn new() -> (r: Self)
        ensures
            r.failed_ips@ == Seq::<String>::empty(),
    {
        UploadReport { failed_ips: Vec::new() }
    }

    /// Records the outcome of one upload: a failed entry is appended as the
    /// original input string, a successful one leaves the report unchanged.
    pub fn record(&mut self, entry: String, succeeded: bool)
        ensures
            final(self).failed_ips@ == (if succeeded {
                old(self).failed_ips@
            } else {
                old(self).failed_ips@.push(entry)
            }),
    {
        if !succeeded {
            self.failed_ips.push(entry);
        }
    }
}

/// Replays a whole run's outcomes at once: the report holds exactly the
/// entries whose outcome was a failure, in input order.
pub fn collect_failures(entries: &Vec<String>, succeeded: &Vec<bool>) -> (r: Vec<String>)
    requires
        entries@.len() == succeeded@.len(),
    ensures
        r@ == spec_failed_entries(entries@, succeeded@),
{
    let n = entries.len();
    let mut failed: Vec<String> = Vec::new();
    let mut i: usize = 0;
    while i < n
        invariant
            n == entries@.len(),
            n == succeeded@.len(),
            i <= n,
            failed@ == spec_failed_entries(entries@.take(i as int), succeeded@.take(i as int)),
        decreases n - i,
    {
        if !succeeded[i] {
            failed.push(entries[i].clone());
        }
        proof {
            assert(entries@.take(i + 1).drop_last() =~= entries@.take(i as int));
            assert(succeeded@.take(i + 1).drop_last() =~= succeeded@.take(i as int));
            assert(entries@.take(i + 1).last() == entries@[i as int]);
            assert(succeeded@.take(i + 1).last() == succeeded@[i as int]);
        }
        i = i + 1;
    }
    proof {
        assert(entries@.take(n as int) =~= entries@);
        assert(succeeded@.take(n as int) =~= succeeded@);
    }
    failed
}

/// Law: an input whose upload failed is in the report.
pub proof fn lemma_failed_entry_reported(entries: Seq<String>, succeeded: Seq<bool>, i: int)
    requires
        entries.len() == succeeded.len(),
        0 <= i < entries.len(),
        !succeeded[i],
    ensures
        spec_failed_entries(entries, succeeded).contains(entries[i]),
    decreases entries.len(),
{
    if i == entries.len() - 1 {
        let rest = spec_failed_entries(entries.drop_last(), succeeded.drop_last());
        assert(rest.push(entries.last())[rest.len() as int] == entries.last());
    } else {
        lemma_failed_entry_reported(entries.drop_last(), succeeded.drop_last(), i);
        let rest = spec_failed_entries(entries.drop_last(), succeeded.drop_last());
        let k = choose|k: int| 0 <= k < rest.len() && rest[k] == entries.drop_last()[i];
        if succeeded.last() {
            assert(spec_failed_entries(entries, succeeded)[k] == entries[i]);
        } else {
            assert(rest.push(entries.last())[k] == entries[i]);
        }
    }
}

/// Law: everything in the report is an input whose upload failed.
pub proof fn lemma_reported_entry_failed(entries: Seq<String>, succeeded: Seq<bool>, x: String)
    requires
        entries.len() == succeeded.len(),
        spec_failed_entries(entries, succeeded).contains(x),
    ensures
        exists|i: int| 0 <= i < entries.len() && entries[i] == x && !succeeded[i],
    decreases entries.len(),
{
    if entries.len() > 0 {
        let rest = spec_failed_entries(entries.drop_last(), succeeded.drop_last());
        if !succeeded.last() && x == entries.last() {
            assert(entries[entries.len() - 1] == x && !succeeded[entries.len() - 1]);
        } else {
            let k = choose|k: int|
                0 <= k < spec_failed_entries(entries, succeeded).len()
                    && spec_failed_entries(entries, succeeded)[k] == x;
            assert(rest[k] == x);
            assert(rest.contains(x));
            lemma_reported_entry_failed(entries.drop_last(), succeeded.drop_last(), x);
            let i = choose|i: int|
                0 <= i < entries.drop_last().len() && entries.drop_last()[i] == x
                    && !succeeded.drop_last()[i];
            assert(entries[i] == x && !succeeded[i]);
        }
    }
}

/// Law: when every upload succeeded, the report is empty.
pub proof fn lemma_all_succeeded_nothing_reported(entries: Seq<String>, succeeded: Seq<bool>)
    requires
        entries.len() == succeeded.len(),
        forall|i: int| 0 <= i < succeeded.len() ==> succeeded[i],
    ensures
        spec_failed_entries(entries, succeeded).len() == 0,
    decreases entries.len(),
{
    if entries.len() > 0 {
        lemma_all_succeeded_nothing_reported(entries.drop_last(), succeeded.drop_last());
    }
}

} // verus!
