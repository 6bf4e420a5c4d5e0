use vstd::prelude::*;
use vstd::rwlock::{RwLock, RwLockPredicate};

verus! {

use crate::catalog::MEASUREMENT_COUNT;
use crate::catalog::{metric_help, metric_name, spec_metric_help, spec_metric_name};
use crate::gauges::{
    table_add_gauge, table_entries, table_label, table_new, table_render, table_set_field,
    GaugeTable,
};
use crate::parser::{field_value, spec_trim, trim_bytes};

/// The entry list a value vector stands for: the catalogue's names and
/// descriptions beside the current bit patterns, in catalogue order.
pub open spec fn entries_for(values: Seq<u64>) -> Seq<(Seq<char>, Seq<char>, u64)> {
    Seq::new(values.len(), |i: int| (spec_metric_name(i), spec_metric_help(i), values[i]))
}

/// The record a field vector applies: each of the first `MEASUREMENT_COUNT`
/// fields parsed independently, a non-numeric field counting as zero.
pub open spec fn applied_values(fields: Seq<Seq<u8>>) -> Seq<u64> {
    Seq::new(MEASUREMENT_COUNT as nat, |i: int| field_value(fields[i]))
}

/// What one apply leaves in the registry: the whole record's values where
/// the record is complete, the previous values untouched where it is short.
pub open spec fn apply_spec(pre: Seq<u64>, fields: Seq<Seq<u8>>) -> Seq<u64> {
    if fields.len() >= MEASUREMENT_COUNT as int {
        applied_values(fields)
    } else {
        pre
    }
}

/// The registry of current values: one gauge per catalogue entry, each
/// dimensioned by the fixed `nodename` label, pre-registered at construction
/// with value zero and only ever overwritten by a newer sample.
pub struct Metrics {
    nodename: String,
    values: Vec<u64>,
    table: GaugeTable,
}

impl Metrics {
    /// The registry's shape is fixed: one value per catalogue entry, and the
    /// published gauge table mirrors the value vector and the label.
    pub closed spec fn wf(self) -> bool {
        &&& self.values@.len() == MEASUREMENT_COUNT as int
        &&& table_entries(self.table) == entries_for(self.values@)
        &&& table_label(self.table) == self.nodename@
    }

    /// The current value vector, as bit patterns in catalogue order.
    pub closed spec fn spec_values(self) -> Seq<u64> {
        self.values@
    }

    /// The configured label value.
    pub closed spec fn spec_nodename(self) -> Seq<char> {
        self.nodename@
    }

    /// Builds the registry: registers one gauge per catalogue entry, each
    /// starting at zero, labelled with the given host identity. Construction
    /// always succeeds: the catalogue's names are valid and pairwise
    /// distinct, so no registration is refused.
    pub fn new(nodename: String) -> (r: Option<Metrics>)
        ensures
            r is Some,
            r matches Some(m) ==> {
                &&& m.wf()
                &&& m.spec_nodename() == nodename@
                &&& m.spec_values() == Seq::new(MEASUREMENT_COUNT as nat, |i: int| 0u64)
            },
    {
        let mut table = table_new(nodename.as_str());
        let mut i: usize = 0;
        proof {
            assert(table_entries(table) =~= Seq::new(
                0,
                |j: int| (spec_metric_name(j), spec_metric_help(j), 0u64),
            ));
        }
        while i < MEASUREMENT_COUNT
            invariant
                0 <= i <= MEASUREMENT_COUNT as int,
                table_label(table) == nodename@,
                table_entries(table) == Seq::new(
                    i as nat,
                    |j: int| (spec_metric_name(j), spec_metric_help(j), 0u64),
                ),
            decreases MEASUREMENT_COUNT as int - i,
        {
            let ghost before = table_entries(table);
            proof {
                crate::catalog::lemma_catalog_names_wf();
                assert forall|j: int|
                    0 <= j < before.len() implies (#[trigger] before[j]).0 != spec_metric_name(
                    i as int,
                ) by {
                    assert(before[j].0 == spec_metric_name(j));
                }
            }
            let ok = table_add_gauge(&mut table, metric_name(i), metric_help(i));
            proof {
                assert(ok);
            }
            i = i + 1;
            proof {
                assert(table_entries(table) =~= Seq::new(
                    i as nat,
                    |j: int| (spec_metric_name(j), spec_metric_help(j), 0u64),
                ));
            }
        }
        let values: Vec<u64> = vec![0u64; MEASUREMENT_COUNT];
        let m = Metrics { nodename, values, table };
        proof {
            assert(m.values@ =~= Seq::new(MEASUREMENT_COUNT as nat, |i: int| 0u64));
            assert(table_entries(m.table) =~~= entries_for(m.values@));
        }
        Some(m)
    }

    /// Applies one sample record: overwrites every entry's value from the
    /// corresponding field, all together, or ignores the whole call where
    /// the record has fewer fields than the catalogue has entries.
    pub fn update(&mut self, record: &Vec<Vec<u8>>)
        requires
            old(self).wf(),
        ensures
            final(self).wf(),
            final(self).spec_nodename() == old(self).spec_nodename(),
            final(self).spec_values() == apply_spec(old(self).spec_values(), record.deep_view()),
            final(self).spec_values() == old(self).spec_values() || final(self).spec_values()
                == applied_values(record.deep_view()),
            record.deep_view().len() < MEASUREMENT_COUNT as int ==> *final(self) == *old(self),
    {
        if record.len() >= MEASUREMENT_COUNT {
            let ghost pre = self.values@;
            let mut i: usize = 0;
            while i < MEASUREMENT_COUNT
                invariant
                    0 <= i <= MEASUREMENT_COUNT as int,
                    record.deep_view().len() >= MEASUREMENT_COUNT as int,
                    record@.len() == record.deep_view().len(),
                    self.values@.len() == MEASUREMENT_COUNT as int,
                    table_entries(self.table) == entries_for(self.values@),
                    table_label(self.table) == self.nodename@,
                    self.nodename@ == old(self).spec_nodename(),
                    forall|j: int|
                        0 <= j < i ==> self.values@[j] == #[trigger] field_value(
                            record.deep_view()[j],
                        ),
                    forall|j: int| i <= j < MEASUREMENT_COUNT as int ==> self.values@[j] == pre[j],
                decreases MEASUREMENT_COUNT as int - i,
            {
                proof {
                    assert(record[i as int]@ =~= record.deep_view()[i as int]);
                }
                let ghost entries_before = table_entries(self.table);
                let ghost values_before = self.values@;
                let trimmed = trim_bytes(record[i].as_slice());
                let bits = crate::parser::parse_field(record[i].as_slice());
                self.values.set(i, bits);
                table_set_field(&mut self.table, i, trimmed.as_slice());
                proof {
                    assert(trimmed@ == spec_trim(record.deep_view()[i as int]));
                    assert(bits == field_value(record.deep_view()[i as int]));
                    assert(table_entries(self.table) =~= entries_for(self.values@)) by {
                        assert forall|j: int| 0 <= j < MEASUREMENT_COUNT as int implies
                            table_entries(self.table)[j] == entries_for(self.values@)[j] by {
                            assert(entries_before[j] == entries_for(values_before)[j]);
                        }
                    }
                }
                i = i + 1;
            }
            proof {
                assert(self.values@ =~= applied_values(record.deep_view()));
            }
        } else {
            proof {
                assert(record.deep_view().len() == record@.len());
            }
        }
    }

    /// A consistent read of every current value, in catalogue order.
    pub fn snapshot(&self) -> (r: Vec<u64>)
        ensures
            r@ == self.spec_values(),
    {
        let r = self.values.clone();
        proof {
            assert(r@ =~= self.values@);
        }
        r
    }

    /// The configured label value, as text.
    pub fn nodename(&self) -> (r: &str)
        ensures
            r@ == self.spec_nodename(),
    {
        self.nodename.as_str()
    }

    /// The exposition text of the current values: what the wire-format
    /// encoder makes of the registry's entries and label. Rendering a
    /// well-formed table always succeeds.
    pub fn render(&self) -> (r: Option<String>)
        requires
            self.wf(),
        ensures
            r is Some,
            r matches Some(s) ==> s@ == crate::gauges::rendering_of(
                entries_for(self.spec_values()),
                self.spec_nodename(),
            ),
    {
        table_render(&self.table)
    }
}

/// Law (registry atomicity): one apply either installs the whole record or
/// nothing, so a serialized snapshot sees entirely the pre-image or entirely
/// the post-image of the apply, never a mix of the two.
pub proof fn lemma_apply_atomic(pre: Seq<u64>, fields: Seq<Seq<u8>>)
    ensures
        apply_spec(pre, fields) == pre || apply_spec(pre, fields) == applied_values(fields),
{
}

/// Law (stale on failure): a short record leaves every previous value in
/// place; last-known values persist across a failed cycle.
pub proof fn lemma_short_record_keeps_values(pre: Seq<u64>, fields: Seq<Seq<u8>>)
    requires
        fields.len() < MEASUREMENT_COUNT as int,
    ensures
        apply_spec(pre, fields) == pre,
{
}

/// Law (pre-sample default): the entries of a freshly built registry carry
/// the catalogue's names and descriptions, each with value zero.
pub proof fn lemma_pre_sample_default(values: Seq<u64>)
    requires
        values == Seq::new(MEASUREMENT_COUNT as nat, |i: int| 0u64),
    ensures
        entries_for(values).len() == MEASUREMENT_COUNT as int,
        forall|i: int|
            0 <= i < MEASUREMENT_COUNT as int ==> #[trigger] entries_for(values)[i] == (
                spec_metric_name(i),
                spec_metric_help(i),
                0u64,
            ),
{
}

/// The lock discipline of the shared registry: only well-formed registry
/// states are ever stored.
pub struct MetricsPred;

impl RwLockPredicate<Metrics> for MetricsPred {
    open spec fn inv(self, m: Metrics) -> bool {
        m.wf()
    }
}

/// The registry behind a single reader-writer lock: the sampler applies
/// records through the write side while scrapes read through the read side,
/// so every reader observes one complete registry state.
pub struct SharedMetrics {
    lock: RwLock<Metrics, MetricsPred>,
}

impl SharedMetrics {
    /// Puts a registry behind the lock.
    pub fn new(m: Metrics) -> (s: SharedMetrics)
        requires
            m.wf(),
    {
        SharedMetrics { lock: RwLock::new(m, Ghost(MetricsPred)) }
    }

    /// Applies one record under the write lock: no snapshot can observe a
    /// partially applied record, since readers are excluded until the whole
    /// record is in place.
    pub fn apply(&self, record: &Vec<Vec<u8>>) {
        let (mut m, handle) = self.lock.acquire_write();
        m.update(record);
        handle.release_write(m);
    }

    /// One collection cycle's decisions, taken under the write lock: no
    /// concurrent scrape can observe a partially applied record, and on any
    /// failure the stored values stay as they were.
    pub fn cycle(&self, tool_ok: bool, content: &Option<Vec<u8>>) -> (r: Result<
        (),
        crate::sampler::CycleError,
    >)
        ensures
            !tool_ok ==> r == Result::<(), crate::sampler::CycleError>::Err(
                crate::sampler::CycleError::ToolFailed,
            ),
            tool_ok ==> match *content {
                None => r == Result::<(), crate::sampler::CycleError>::Err(
                    crate::sampler::CycleError::ReadFailed,
                ),
                Some(c) => match crate::parser::extract_spec(c@) {
                    None => r == Result::<(), crate::sampler::CycleError>::Err(
                        crate::sampler::CycleError::NoData,
                    ),
                    Some(_) => r == Result::<(), crate::sampler::CycleError>::Ok(()),
                },
            },
    {
        let (mut m, handle) = self.lock.acquire_write();
        let r = crate::sampler::run_cycle(&mut m, tool_ok, content);
        handle.release_write(m);
        r
    }

    /// Reads every current value under the read lock: the vector is the
    /// whole value table of one registry state.
    pub fn snapshot(&self) -> (r: Vec<u64>)
        ensures
            r@.len() == MEASUREMENT_COUNT as int,
            exists|m: Metrics| #[trigger] m.wf() && r@ == m.spec_values(),
    {
        let handle = self.lock.acquire_read();
        let r = handle.borrow().snapshot();
        handle.release_read();
        r
    }

    /// Renders the exposition text of one registry state under the read
    /// lock: the text is internally consistent, never a half-applied mix,
    /// and rendering always succeeds.
    pub fn render(&self) -> (r: Option<String>)
        ensures
            r is Some,
            r matches Some(s) ==> exists|m: Metrics|
                #[trigger] m.wf() && s@ == crate::gauges::rendering_of(
                    entries_for(m.spec_values()),
                    m.spec_nodename(),
                ),
    {
        let handle = self.lock.acquire_read();
        let r = handle.borrow().render();
        handle.release_read();
        r
    }
}

} // verus!
