//! Read-only, point-in-time access to a host kernel's statistics facility.
//!
//! The kernel exposes its statistics as a chain of records, each carrying a
//! type tag, identity fields (class, module, instance, name) and a
//! self-describing list of named counters.  A [`KstatReader`] walks that
//! chain, keeps the records whose type is decodable and which match its
//! filter, decodes each record's tagged-union wire format, and returns the
//! result as a collection of [`KstatData`] snapshots.
//!
//! The chain itself is owned by a provider and is handed to the reader as a
//! [`KstatCtl`] value: a materialized view of the chain, of the indirect
//! string data reachable from it, and of the per-record read outcomes.  The
//! unverifiable system-call surface that materializes such a value on a live
//! host lives outside this library.

use vstd::prelude::*;

/// The wire-level constants and type tags of the kernel statistics interface.
pub mod kstat_types;
/// The named-value wire format and its decoder.
pub mod kstat_named;
/// The decoded counter-name-to-value mapping.
pub mod kstat_map;
/// The materialized chain, its records, and the read primitives over them.
pub mod kstat_ctl;

use crate::kstat_ctl::{spec_read_entry, CtlView, EntryView, Kstat, KstatCtl, OutcomeView};
use crate::kstat_map::KstatMap;
use crate::kstat_named::{spec_decode_list, ValueView};
use crate::kstat_types::{
    spec_decodable, tag_is_decodable, ERR_TRANSIENT_IO, ERR_VANISHED, KSTAT_FIELD_MAX,
};

verus! {

/// The failure taxonomy of a read cycle.
///
/// Only record-read failures whose code is in the reader's skip set are
/// absorbed inside a cycle; every other kind surfaces to the caller.
#[derive(Debug, Clone, Copy, PartialEq, Eq, Structural)]
pub enum KstatError {
    /// The kernel statistics facility could not be opened.
    Connection,
    /// Re-enumerating the chain failed.
    Refresh,
    /// A direct lookup matched no record.
    NotFound,
    /// A record's data does not match the wire format: an unknown value-type
    /// discriminant, or an indirect string address the provider cannot
    /// resolve.
    Decode,
    /// Reading one record failed, with the provider's error code.  Codes in
    /// the reader's skip set mark the record as stale or transiently
    /// unreadable; a cycle skips such a record and goes on.
    Read(i32),
}

/// The decoded, typed, provider-independent copy of one record's values at
/// a point in time.
#[derive(Debug)]
pub struct KstatData {
    /// The record's class field.
    pub class: String,
    /// The record's module field.
    pub module: String,
    /// The record's instance number.
    pub instance: i32,
    /// The record's name field.
    pub name: String,
    /// Nanoseconds since boot at the record's last data snapshot.
    pub snaptime: i64,
    /// Creation time of the record, in nanoseconds since boot.
    pub crtime: i64,
    /// The record's counters: a mapping from counter name to typed value.
    pub data: KstatMap,
}

/// The mathematical content of one snapshot.
pub ghost struct KstatDataView {
    pub class: Seq<char>,
    pub module: Seq<char>,
    pub instance: i32,
    pub name: Seq<char>,
    pub snaptime: i64,
    pub crtime: i64,
    pub data: Map<Seq<char>, ValueView>,
}

impl View for KstatData {
    type V = KstatDataView;

    open spec fn view(&self) -> KstatDataView {
        KstatDataView {
            class: self.class@,
            module: self.module@,
            instance: self.instance,
            name: self.name@,
            snaptime: self.snaptime,
            crtime: self.crtime,
            data: self.data@,
        }
    }
}

/// The mathematical contents of a snapshot collection.
pub open spec fn spec_datas_view(s: Seq<KstatData>) -> Seq<KstatDataView> {
    Seq::new(s.len(), |i: int| s[i]@)
}

/// The compound identity filter of a reader: each field either constrains
/// its record field to an exact value or, when absent, is a wildcard; and
/// the set of read-failure codes a cycle absorbs by skipping the record.
pub ghost struct FilterView {
    pub module: Option<Seq<char>>,
    pub instance: Option<i32>,
    pub name: Option<Seq<char>>,
    pub class: Option<Seq<char>>,
    pub skip_codes: Seq<i32>,
}

/// The mathematical content of a reader: its filter and its control
/// handle.
pub ghost struct ReaderView {
    pub filter: FilterView,
    pub ctl: CtlView,
}

/// Whether a record satisfies the filter: the conjunction of per-field
/// equality tests, where an absent field holds unconditionally.
pub open spec fn spec_matches(f: FilterView, e: EntryView) -> bool {
    &&& (f.module matches Some(m) ==> e.module == m)
    &&& (f.instance matches Some(i) ==> e.instance == i)
    &&& (f.name matches Some(n) ==> e.name == n)
    &&& (f.class matches Some(c) ==> e.class == c)
}

/// Whether a walk yields a record: its type must be decodable and it must
/// satisfy the filter.
pub open spec fn spec_selected(f: FilterView, e: EntryView) -> bool {
    spec_decodable(e.ks_type) && spec_matches(f, e)
}

/// The outcome of one read cycle over a chain: the snapshots of the
/// selected records, in chain order, with records whose read fails with a
/// skip-set code left out; or the first fatal error, a non-skip-set read
/// code or undecodable data, which aborts the cycle.
pub open spec fn spec_walk(
    chain: Seq<EntryView>,
    strings: Map<u64, Seq<char>>,
    f: FilterView,
) -> Result<Seq<KstatDataView>, KstatError>
    decreases chain.len(),
{
    if chain.len() == 0 {
        Ok(Seq::empty())
    } else {
        let e = chain.first();
        let rest = spec_walk(chain.drop_first(), strings, f);
        if !spec_selected(f, e) {
            rest
        } else {
            match spec_read_entry(e, strings) {
                Ok(d) => match rest {
                    Ok(tail) => Ok(seq![d] + tail),
                    Err(err) => Err(err),
                },
                Err(err) => match err {
                    KstatError::Read(code) => if f.skip_codes.contains(code) {
                        rest
                    } else {
                        Err(err)
                    },
                    _ => Err(err),
                },
            }
        }
    }
}

/// The reader state a call to `read` leaves behind: a successful refresh
/// moves the chain identity forward, a failed one leaves the state as it
/// was.  The chain itself is unchanged either way.
pub open spec fn spec_read_state(s: ReaderView) -> ReaderView {
    if s.ctl.refresh_fails {
        s
    } else {
        ReaderView { ctl: CtlView { chain_id: s.ctl.next_chain_id, ..s.ctl }, ..s }
    }
}

/// The outcome a call to `read` returns: `Refresh` when re-enumeration
/// fails, otherwise the outcome of one walk over the current chain.
pub open spec fn spec_read_result(s: ReaderView) -> Result<Seq<KstatDataView>, KstatError> {
    if s.ctl.refresh_fails {
        Err(KstatError::Refresh)
    } else {
        spec_walk(s.ctl.chain, s.ctl.strings, s.filter)
    }
}

/// Whether a set of codes holds the given code.
fn codes_contain(codes: &Vec<i32>, code: i32) -> (r: bool)
    ensures
        r == codes@.contains(code),
{
    let n = codes.len();
    let mut i: usize = 0;
    while i < n
        invariant
            i <= n,
            n == codes@.len(),
            forall|j: int| 0 <= j < i ==> codes@[j] != code,
        decreases n - i,
    {
        if codes[i] == code {
            return true;
        }
        i = i + 1;
    }
    false
}

/// Tracks the records of interest over one control handle: an immutable
/// compound identity filter, the set of read-failure codes one cycle may
/// absorb, and the handle itself.  Each call to [`KstatReader::read`]
/// refreshes the chain and decodes the matching records into snapshots.
#[derive(Debug)]
pub struct KstatReader {
    module: Option<String>,
    instance: Option<i32>,
    name: Option<String>,
    class: Option<String>,
    skip_codes: Vec<i32>,
    ctl: KstatCtl,
}

impl View for KstatReader {
    type V = ReaderView;

    closed spec fn view(&self) -> ReaderView {
        ReaderView {
            filter: FilterView {
                module: match self.module {
                    Some(s) => Some(s@),
                    None => None,
                },
                instance: self.instance,
                name: match self.name {
                    Some(s) => Some(s@),
                    None => None,
                },
                class: match self.class {
                    Some(s) => Some(s@),
                    None => None,
                },
                skip_codes: self.skip_codes@,
            },
            ctl: self.ctl@,
        }
    }
}

impl KstatReader {
    /// A reader over the given handle, with every filter field a wildcard
    /// and the conventional stale and transient-I/O codes in the skip set.
    pub fn new(ctl: KstatCtl) -> (r: KstatReader)
        ensures
            r@.filter.module is None,
            r@.filter.instance is None,
            r@.filter.name is None,
            r@.filter.class is None,
            r@.filter.skip_codes == seq![ERR_VANISHED, ERR_TRANSIENT_IO],
            r@.ctl == ctl@,
    {
        let mut skip_codes: Vec<i32> = Vec::new();
        skip_codes.push(ERR_VANISHED);
        skip_codes.push(ERR_TRANSIENT_IO);
        proof {
            assert(skip_codes@ =~= seq![ERR_VANISHED, ERR_TRANSIENT_IO]);
        }
        KstatReader { module: None, instance: None, name: None, class: None, skip_codes, ctl }
    }

    /// Constrains the module field to `m`.
    pub fn module(&mut self, m: &str)
        ensures
            final(self)@ == (ReaderView {
                filter: FilterView { module: Some(m@), ..old(self)@.filter },
                ..old(self)@
            }),
    {
        self.module = Some(m.to_owned());
    }

    /// Constrains the instance field to `i`.
    pub fn instance(&mut self, i: i32)
        ensures
            final(self)@ == (ReaderView {
                filter: FilterView { instance: Some(i), ..old(self)@.filter },
                ..old(self)@
            }),
    {
        self.instance = Some(i);
    }

    /// Constrains the name field to `n`.
    pub fn name(&mut self, n: &str)
        ensures
            final(self)@ == (ReaderView {
                filter: FilterView { name: Some(n@), ..old(self)@.filter },
                ..old(self)@
            }),
    {
        self.name = Some(n.to_owned());
    }

    /// Constrains the class field to `c`.
    pub fn class(&mut self, c: &str)
        ensures
            final(self)@ == (ReaderView {
                filter: FilterView { class: Some(c@), ..old(self)@.filter },
                ..old(self)@
            }),
    {
        self.class = Some(c.to_owned());
    }

    /// Adds a read-failure code to the skip set: a record whose read
    /// reports it is skipped and the cycle goes on.
    pub fn skip_code(&mut self, code: i32)
        ensures
            final(self)@ == (ReaderView {
                filter: FilterView {
                    skip_codes: old(self)@.filter.skip_codes.push(code),
                    ..old(self)@.filter
                },
                ..old(self)@
            }),
    {
        self.skip_codes.push(code);
    }

    /// One read cycle: refreshes the chain, walks it from the head, and
    /// decodes every record that the filter selects, in chain order.
    /// Records whose read reports a skip-set code are left out; any other
    /// failure aborts the cycle, and no partial collection is returned.
    #[verifier::loop_isolation(false)]
    pub fn read(&mut self) -> (r: Result<Vec<KstatData>, KstatError>)
        ensures
            final(self)@ == spec_read_state(old(self)@),
            match spec_read_result(old(self)@) {
                Ok(ds) => r matches Ok(v) && spec_datas_view(v@) == ds && (forall|i: int|
                    0 <= i < v@.len() ==> (#[trigger] v@[i]).data.wf()),
                Err(err) => r matches Err(x) && x == err,
            },
    {
        let ghost s0 = self@;
        match self.ctl.chain_update() {
            Ok(_) => {},
            Err(e) => {
                return Err(e);
            },
        }
        let mut ret: Vec<KstatData> = Vec::new();
        let n = self.ctl.chain_len();
        let mut i: usize = 0;
        proof {
            assert(s0.ctl.chain.skip(0) =~= s0.ctl.chain);
            assert(spec_datas_view(ret@) =~= Seq::<KstatDataView>::empty());
        }
        while i < n
            invariant
                i <= n,
                n == self@.ctl.chain.len(),
                self@ == spec_read_state(s0),
                !s0.ctl.refresh_fails,
                self@.ctl.chain == s0.ctl.chain,
                self@.ctl.strings == s0.ctl.strings,
                self@.filter == s0.filter,
                forall|j: int| 0 <= j < ret@.len() ==> (#[trigger] ret@[j]).data.wf(),
                spec_walk(s0.ctl.chain, s0.ctl.strings, s0.filter) == (match spec_walk(
                    s0.ctl.chain.skip(i as int),
                    s0.ctl.strings,
                    s0.filter,
                ) {
                    Ok(tail) => Ok(spec_datas_view(ret@) + tail),
                    Err(err) => Err::<Seq<KstatDataView>, KstatError>(err),
                }),
            decreases n - i,
        {
            proof {
                assert(s0.ctl.chain.skip(i as int).first() == s0.ctl.chain[i as int]);
                assert(s0.ctl.chain.skip(i as int).drop_first() =~= s0.ctl.chain.skip(
                    i as int + 1,
                ));
            }
            let e = &self.ctl.chain[i];
            let selected = tag_is_decodable(e.ks_type) && (match &self.module {
                None => true,
                Some(m) => *m == e.module,
            }) && (match self.instance {
                None => true,
                Some(iv) => iv == e.instance,
            }) && (match &self.name {
                None => true,
                Some(nm) => *nm == e.name,
            }) && (match &self.class {
                None => true,
                Some(c) => *c == e.class,
            });
            proof {
                assert(selected == spec_selected(s0.filter, s0.ctl.chain[i as int]));
            }
            if selected {
                let k = Kstat { index: i };
                match k.read(&self.ctl) {
                    Ok(d) => {
                        let ghost ret0 = ret@;
                        let ghost dv = d@;
                        ret.push(d);
                        proof {
                            assert(spec_datas_view(ret@) =~= spec_datas_view(ret0).push(dv));
                            match spec_walk(
                                s0.ctl.chain.skip(i as int + 1),
                                s0.ctl.strings,
                                s0.filter,
                            ) {
                                Ok(tail) => {
                                    assert(spec_datas_view(ret0) + (seq![dv] + tail)
                                        =~= spec_datas_view(ret0).push(dv) + tail);
                                },
                                Err(_) => {},
                            }
                        }
                    },
                    Err(err) => {
                        let fatal = match err {
                            KstatError::Read(code) => !codes_contain(&self.skip_codes, code),
                            _ => true,
                        };
                        if fatal {
                            return Err(err);
                        }
                    },
                }
            }
            i = i + 1;
        }
        proof {
            assert(s0.ctl.chain.skip(n as int) =~= Seq::<EntryView>::empty());
            assert(spec_datas_view(ret@) + Seq::<KstatDataView>::empty() =~= spec_datas_view(
                ret@,
            ));
        }
        Ok(ret)
    }
}

/// Whether every filter field is a wildcard.
pub open spec fn spec_wildcard(f: FilterView) -> bool {
    &&& f.module is None
    &&& f.instance is None
    &&& f.name is None
    &&& f.class is None
}

/// Whether every decodable record of the chain reads and decodes cleanly.
pub open spec fn spec_all_clean(chain: Seq<EntryView>, strings: Map<u64, Seq<char>>) -> bool {
    forall|i: int|
        0 <= i < chain.len() && spec_decodable((#[trigger] chain[i]).ks_type)
            ==> spec_read_entry(chain[i], strings) is Ok
}

/// How many records of the chain have a decodable type.
pub open spec fn spec_count_decodable(chain: Seq<EntryView>) -> nat
    decreases chain.len(),
{
    if chain.len() == 0 {
        0
    } else {
        spec_count_decodable(chain.drop_first()) + if spec_decodable(chain.first().ks_type) {
            1nat
        } else {
            0nat
        }
    }
}

/// The snapshots of the decodable records of the chain, in chain order,
/// when each of them reads and decodes cleanly.
pub open spec fn spec_clean_snapshots(
    chain: Seq<EntryView>,
    strings: Map<u64, Seq<char>>,
) -> Seq<KstatDataView>
    decreases chain.len(),
{
    if chain.len() == 0 {
        Seq::empty()
    } else {
        let rest = spec_clean_snapshots(chain.drop_first(), strings);
        if spec_decodable(chain.first().ks_type) {
            match spec_read_entry(chain.first(), strings) {
                Ok(d) => seq![d] + rest,
                Err(_) => rest,
            }
        } else {
            rest
        }
    }
}

/// Wildcard filter: over a chain whose decodable records all read and
/// decode cleanly, a cycle with an all-wildcard filter returns exactly one
/// snapshot per decodable record, in chain order.
pub proof fn lemma_wildcard_walk(
    chain: Seq<EntryView>,
    strings: Map<u64, Seq<char>>,
    f: FilterView,
)
    requires
        spec_wildcard(f),
        spec_all_clean(chain, strings),
    ensures
        spec_walk(chain, strings, f) matches Ok(out) && out == spec_clean_snapshots(chain, strings)
            && out.len() == spec_count_decodable(chain),
    decreases chain.len(),
{
    if chain.len() > 0 {
        assert forall|i: int|
            0 <= i < chain.drop_first().len() && spec_decodable(
                (#[trigger] chain.drop_first()[i]).ks_type,
            ) implies spec_read_entry(chain.drop_first()[i], strings) is Ok by {
            assert(chain.drop_first()[i] == chain[i + 1]);
        }
        lemma_wildcard_walk(chain.drop_first(), strings, f);
        assert(spec_decodable(chain[0].ks_type) ==> spec_read_entry(chain[0], strings) is Ok);
    }
}

/// Filter correctness: every snapshot a cycle returns carries, in each
/// field the filter constrains, exactly the filter's value.
pub proof fn lemma_filter_correct(
    chain: Seq<EntryView>,
    strings: Map<u64, Seq<char>>,
    f: FilterView,
)
    requires
        f.module matches Some(m) ==> m.len() <= KSTAT_FIELD_MAX,
        f.name matches Some(n) ==> n.len() <= KSTAT_FIELD_MAX,
        f.class matches Some(c) ==> c.len() <= KSTAT_FIELD_MAX,
    ensures
        spec_walk(chain, strings, f) matches Ok(out) ==> forall|i: int|
            0 <= i < out.len() ==> {
                &&& (f.module matches Some(m) ==> (#[trigger] out[i]).module == m)
                &&& (f.instance matches Some(v) ==> out[i].instance == v)
                &&& (f.name matches Some(n) ==> out[i].name == n)
                &&& (f.class matches Some(c) ==> out[i].class == c)
            },
    decreases chain.len(),
{
    if chain.len() > 0 {
        lemma_filter_correct(chain.drop_first(), strings, f);
        let e = chain.first();
        if spec_selected(f, e) && spec_read_entry(e, strings) is Ok
            && spec_walk(chain.drop_first(), strings, f) is Ok {
            let d = spec_read_entry(e, strings)->Ok_0;
            let tail = spec_walk(chain.drop_first(), strings, f)->Ok_0;
            let out = spec_walk(chain, strings, f)->Ok_0;
            assert(out == seq![d] + tail);
            assert forall|i: int| 0 <= i < out.len() implies {
                &&& (f.module matches Some(m) ==> (#[trigger] out[i]).module == m)
                &&& (f.instance matches Some(v) ==> out[i].instance == v)
                &&& (f.name matches Some(n) ==> out[i].name == n)
                &&& (f.class matches Some(c) ==> out[i].class == c)
            } by {
                if i == 0 {
                    assert(out[0] == d);
                } else {
                    assert(out[i] == tail[i - 1]);
                }
            }
        }
    }
}

/// Idempotence: a second read cycle over a provider whose state has not
/// changed in between returns the same outcome as the first.
pub proof fn lemma_read_idempotent(s: ReaderView)
    ensures
        spec_read_result(spec_read_state(s)) == spec_read_result(s),
{
}

/// Stale skip: a record whose read reports a skip-set code contributes no
/// snapshot, and the rest of the cycle is exactly the cycle over the chain
/// without that record.
pub proof fn lemma_skipped_record_removed(
    chain: Seq<EntryView>,
    strings: Map<u64, Seq<char>>,
    f: FilterView,
    i: int,
)
    requires
        0 <= i < chain.len(),
        chain[i].outcome matches OutcomeView::Error(code) && f.skip_codes.contains(code),
    ensures
        spec_walk(chain, strings, f) == spec_walk(chain.remove(i), strings, f),
    decreases chain.len(),
{
    if i == 0 {
        assert(chain.remove(0) =~= chain.drop_first());
    } else {
        lemma_skipped_record_removed(chain.drop_first(), strings, f, i - 1);
        assert(chain.drop_first()[i - 1] == chain[i]);
        assert(chain.remove(i).drop_first() =~= chain.drop_first().remove(i - 1));
        assert(chain.remove(i).first() == chain.first());
    }
}

/// Fatal decode: when every failed record read reports a skip-set code
/// but some selected record's data does not decode, the cycle fails with
/// `Decode`, and no partial snapshot collection is returned.
pub proof fn lemma_fatal_decode(
    chain: Seq<EntryView>,
    strings: Map<u64, Seq<char>>,
    f: FilterView,
    i: int,
)
    requires
        forall|j: int|
            0 <= j < chain.len() ==> ((#[trigger] chain[j]).outcome matches OutcomeView::Error(
                code,
            ) ==> f.skip_codes.contains(code)),
        0 <= i < chain.len(),
        spec_selected(f, chain[i]),
        chain[i].outcome matches OutcomeView::Data(raws) && spec_decode_list(raws, strings)
            is None,
    ensures
        spec_walk(chain, strings, f) == Err::<Seq<KstatDataView>, KstatError>(KstatError::Decode),
    decreases chain.len(),
{
    let e = chain.first();
    if i == 0 {
        assert(spec_read_entry(e, strings) == Err::<KstatDataView, KstatError>(
            KstatError::Decode,
        ));
    } else {
        assert forall|j: int|
            0 <= j < chain.drop_first().len() implies ((#[trigger] chain.drop_first()[j]).outcome
            matches OutcomeView::Error(code) ==> f.skip_codes.contains(code)) by {
            assert(chain.drop_first()[j] == chain[j + 1]);
        }
        assert(chain.drop_first()[i - 1] == chain[i]);
        lemma_fatal_decode(chain.drop_first(), strings, f, i - 1);
        if spec_selected(f, e) {
            match e.outcome {
                OutcomeView::Error(code) => {
                    assert(chain[0].outcome matches OutcomeView::Error(c) && c == code);
                    assert(f.skip_codes.contains(code));
                },
                OutcomeView::Data(_) => {},
            }
        }
    }
}

} // verus!
