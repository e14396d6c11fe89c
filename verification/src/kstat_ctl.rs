//! The control handle over the kernel statistics facility: a materialized
//! view of the current chain of records, of the indirect string data
//! reachable from it, and of the outcome the read primitive reports for
//! each record.  A [`Kstat`] is a cursor into that chain; reading it
//! decodes one record into a [`KstatData`] snapshot.

use vstd::prelude::*;
use vstd::string::StringExecFns;

use crate::{KstatData, KstatDataView, KstatError};
use crate::kstat_map::KstatMap;
use crate::kstat_named::{
    lemma_decode_list_failure, raws_view, spec_decode_list, KstatNamed, KstatNamedData, RawNamed,
    RawNamedView, StringTable, ValueView,
};
use crate::kstat_types::{spec_trunc, truncate_field};

verus! {

/// What the read primitive reports for one record: the record's raw
/// named-value list, or an error code.
#[derive(Debug)]
pub enum ReadOutcome {
    /// The read succeeded; the record's data buffer holds these raw named
    /// values.
    Data(Vec<RawNamed>),
    /// The read failed with this code.
    Error(i32),
}

/// The mathematical content of one read outcome.
pub ghost enum OutcomeView {
    Data(Seq<RawNamedView>),
    Error(i32),
}

impl View for ReadOutcome {
    type V = OutcomeView;

    open spec fn view(&self) -> OutcomeView {
        match self {
            ReadOutcome::Data(raws) => OutcomeView::Data(raws_view(raws@)),
            ReadOutcome::Error(code) => OutcomeView::Error(*code),
        }
    }
}

/// One record of the chain, as enumeration and read materialize it: the
/// identity fields, the wire type tag, the timestamps, and what the read
/// primitive reports for the record's data.
#[derive(Debug)]
pub struct ChainEntry {
    /// The record's class field.
    pub class: String,
    /// The provider module's name.
    pub module: String,
    /// The provider module's instance number.
    pub instance: i32,
    /// The record's name field.
    pub name: String,
    /// The record's wire type tag.
    pub ks_type: u8,
    /// Creation time of the record, in nanoseconds since boot.
    pub crtime: i64,
    /// Nanoseconds since boot at the record's last data snapshot.
    pub snaptime: i64,
    /// What the read primitive reports for this record.
    pub outcome: ReadOutcome,
}

/// The mathematical content of one chain record.
pub ghost struct EntryView {
    pub class: Seq<char>,
    pub module: Seq<char>,
    pub instance: i32,
    pub name: Seq<char>,
    pub ks_type: u8,
    pub crtime: i64,
    pub snaptime: i64,
    pub outcome: OutcomeView,
}

impl View for ChainEntry {
    type V = EntryView;

    open spec fn view(&self) -> EntryView {
        EntryView {
            class: self.class@,
            module: self.module@,
            instance: self.instance,
            name: self.name@,
            ks_type: self.ks_type,
            crtime: self.crtime,
            snaptime: self.snaptime,
            outcome: self.outcome@,
        }
    }
}

/// The mathematical content of a control handle.
pub ghost struct CtlView {
    pub chain: Seq<EntryView>,
    pub strings: Map<u64, Seq<char>>,
    pub chain_id: i32,
    pub next_chain_id: i32,
    pub refresh_fails: bool,
}

/// The control handle: the current chain, the bounded-string-read
/// capability over it, the chain identity, and how the facility will
/// answer the next re-enumeration.  On a live host the system-call layer
/// materializes such a value from the kernel; a test builds one directly.
#[derive(Debug)]
pub struct KstatCtl {
    /// The records of the current chain, in chain order.
    pub chain: Vec<ChainEntry>,
    /// The text reachable from each indirect string address of the chain.
    pub strings: StringTable,
    /// The chain identity observed by the latest re-enumeration.
    pub chain_id: i32,
    /// The chain identity the next re-enumeration will observe.
    pub next_chain_id: i32,
    /// Whether the next re-enumeration fails at the system level.
    pub refresh_fails: bool,
}

impl View for KstatCtl {
    type V = CtlView;

    open spec fn view(&self) -> CtlView {
        CtlView {
            chain: Seq::new(self.chain@.len(), |i: int| self.chain@[i]@),
            strings: self.strings@,
            chain_id: self.chain_id,
            next_chain_id: self.next_chain_id,
            refresh_fails: self.refresh_fails,
        }
    }
}

/// Classifies the raw return of the chain-refresh primitive: zero means
/// the chain identity is unchanged, anything else that it changed.
pub fn chain_updated(kid: i32) -> (r: bool)
    ensures
        r == (kid != 0),
{
    match kid {
        0 => false,
        _ => true,
    }
}

/// Whether a record satisfies a direct-lookup request: each given field
/// must match exactly, an absent field matches anything, and the sentinel
/// instance `-1` matches any instance.
pub open spec fn spec_lookup_match(
    e: EntryView,
    module: Option<Seq<char>>,
    instance: i32,
    name: Option<Seq<char>>,
) -> bool {
    &&& (module matches Some(m) ==> e.module == m)
    &&& (instance != -1 ==> e.instance == instance)
    &&& (name matches Some(n) ==> e.name == n)
}

/// Whether position `i` holds the first record of `chain` that satisfies a
/// direct-lookup request.
pub open spec fn spec_first_match(
    chain: Seq<EntryView>,
    module: Option<Seq<char>>,
    instance: i32,
    name: Option<Seq<char>>,
    i: int,
) -> bool {
    &&& 0 <= i < chain.len()
    &&& spec_lookup_match(chain[i], module, instance, name)
    &&& forall|j: int| 0 <= j < i ==> !spec_lookup_match(chain[j], module, instance, name)
}

/// The text of an optional lookup field.
pub open spec fn spec_opt_field(o: Option<&String>) -> Option<Seq<char>> {
    match o {
        Some(s) => Some(s@),
        None => None,
    }
}

/// The snapshot one record decodes to under the string capability
/// `strings`, or the error that reading or decoding it reports: the code
/// of a failed read surfaces as [`KstatError::Read`], and data that does
/// not match the wire format as [`KstatError::Decode`].
pub open spec fn spec_read_entry(
    e: EntryView,
    strings: Map<u64, Seq<char>>,
) -> Result<KstatDataView, KstatError> {
    match e.outcome {
        OutcomeView::Error(code) => Err(KstatError::Read(code)),
        OutcomeView::Data(raws) => match spec_decode_list(raws, strings) {
            None => Err(KstatError::Decode),
            Some(m) => Ok(
                KstatDataView {
                    class: spec_trunc(e.class),
                    module: spec_trunc(e.module),
                    instance: e.instance,
                    name: spec_trunc(e.name),
                    snaptime: e.snaptime,
                    crtime: e.crtime,
                    data: m,
                },
            ),
        },
    }
}

impl KstatCtl {
    /// A handle over the given chain and string capability, with the given
    /// chain identity; the next re-enumeration observes the same identity
    /// and succeeds.
    pub fn new(chain: Vec<ChainEntry>, strings: StringTable, chain_id: i32) -> (r: KstatCtl)
        ensures
            r@.chain == Seq::new(chain@.len(), |i: int| chain@[i]@),
            r@.strings == strings@,
            r@.chain_id == chain_id,
            r@.next_chain_id == chain_id,
            r@.refresh_fails == false,
    {
        KstatCtl { chain, strings, chain_id, next_chain_id: chain_id, refresh_fails: false }
    }

    /// How many records the current chain holds.
    pub fn chain_len(&self) -> (r: usize)
        ensures
            r == self@.chain.len(),
    {
        self.chain.len()
    }

    /// Re-enumerates the chain.  Returns whether the chain identity
    /// changed since the previous refresh, or [`KstatError::Refresh`] on a
    /// system-level failure, in which case the handle is unchanged.
    pub fn chain_update(&mut self) -> (r: Result<bool, KstatError>)
        ensures
            old(self)@.refresh_fails ==> (r matches Err(e) && e == KstatError::Refresh
                && final(self)@ == old(self)@),
            !old(self)@.refresh_fails ==> (r matches Ok(b) && b == (old(self)@.chain_id
                != old(self)@.next_chain_id) && final(self)@ == (CtlView {
                chain_id: old(self)@.next_chain_id,
                ..old(self)@
            })),
    {
        if self.refresh_fails {
            return Err(KstatError::Refresh);
        }
        let changed = self.chain_id != self.next_chain_id;
        self.chain_id = self.next_chain_id;
        Ok(changed)
    }

    /// Invokes the read primitive on the record under the given cursor:
    /// the record's raw named-value list, or [`KstatError::Read`] with the
    /// code the primitive reports.
    pub fn kstat_read<'a>(&'a self, kstat: &Kstat) -> (r: Result<&'a Vec<RawNamed>, KstatError>)
        requires
            kstat.index < self@.chain.len(),
        ensures
            match self@.chain[kstat.index as int].outcome {
                OutcomeView::Data(raws) => r matches Ok(v) && raws_view(v@) == raws,
                OutcomeView::Error(code) => r matches Err(e) && e == KstatError::Read(code),
            },
    {
        match &self.chain[kstat.index].outcome {
            ReadOutcome::Data(raws) => Ok(raws),
            ReadOutcome::Error(code) => Err(KstatError::Read(*code)),
        }
    }

    /// Resolves one record by exact match on the given fields: `module`
    /// and `name` absent mean wildcard, and the sentinel instance `-1`
    /// means wildcard.  Returns a cursor to the first record of the chain
    /// that matches, or [`KstatError::NotFound`] when none does.
    pub fn lookup(&self, module: Option<&String>, instance: i32, name: Option<&String>) -> (r:
        Result<Kstat, KstatError>)
        ensures
            ({
                let m = spec_opt_field(module);
                let n = spec_opt_field(name);
                match r {
                    Ok(k) => spec_first_match(self@.chain, m, instance, n, k.index as int),
                    Err(e) => e == KstatError::NotFound && forall|j: int|
                        0 <= j < self@.chain.len() ==> !spec_lookup_match(
                            self@.chain[j],
                            m,
                            instance,
                            n,
                        ),
                }
            }),
    {
        let n = self.chain.len();
        let mut i: usize = 0;
        while i < n
            invariant
                i <= n,
                n == self@.chain.len(),
                forall|j: int| 0 <= j < i ==> !spec_lookup_match(
                    self@.chain[j],
                    spec_opt_field(module),
                    instance,
                    spec_opt_field(name),
                ),
            decreases n - i,
        {
            let e = &self.chain[i];
            let module_ok = match module {
                None => true,
                Some(m) => *m == e.module,
            };
            let instance_ok = instance == -1 || instance == e.instance;
            let name_ok = match name {
                None => true,
                Some(nm) => *nm == e.name,
            };
            if module_ok && instance_ok && name_ok {
                return Ok(Kstat { index: i });
            }
            i = i + 1;
        }
        Err(KstatError::NotFound)
    }

    /// The direct single-record access path: resolves one record as
    /// [`KstatCtl::lookup`] does, decodes it, and returns its counters
    /// with three pseudo-fields `class`, `crtime` and `snaptime` injected
    /// into the same namespace.
    pub fn lookup_read(&self, module: Option<&String>, instance: i32, name: Option<&String>) -> (r:
        Result<KstatMap, KstatError>)
        ensures
            ({
                let m = spec_opt_field(module);
                let n = spec_opt_field(name);
                &&& (forall|j: int|
                    0 <= j < self@.chain.len() ==> !spec_lookup_match(
                        self@.chain[j],
                        m,
                        instance,
                        n,
                    )) ==> (r matches Err(e) && e == KstatError::NotFound)
                &&& forall|i: int|
                    spec_first_match(self@.chain, m, instance, n, i) ==> (match spec_read_entry(
                        self@.chain[i],
                        self@.strings,
                    ) {
                        Ok(d) => r matches Ok(out) && out.wf() && out@ == d.data.insert(
                            "class"@,
                            ValueView::Text(d.class),
                        ).insert("crtime"@, ValueView::Int64(d.crtime)).insert(
                            "snaptime"@,
                            ValueView::Int64(d.snaptime),
                        ),
                        Err(err) => r matches Err(x) && x == err,
                    })
            }),
    {
        let k = match self.lookup(module, instance, name) {
            Ok(k) => k,
            Err(e) => {
                return Err(e);
            },
        };
        let d = match k.read(self) {
            Ok(d) => d,
            Err(e) => {
                return Err(e);
            },
        };
        let mut out = d.data;
        out.insert(String::from_str("class"), KstatNamedData::DataString(d.class));
        out.insert(String::from_str("crtime"), KstatNamedData::DataInt64(d.crtime));
        out.insert(String::from_str("snaptime"), KstatNamedData::DataInt64(d.snaptime));
        Ok(out)
    }
}

/// A cursor to one record of the current chain.  A cursor is only
/// meaningful against the handle whose chain it was resolved from, and
/// only until the next refresh of that handle.
#[derive(Debug, Clone, Copy, PartialEq, Eq, Structural)]
pub struct Kstat {
    /// The record's position in the current chain.
    pub index: usize,
}

impl Kstat {
    /// The raw position this cursor stands for.
    pub fn get_inner(&self) -> (r: usize)
        ensures
            r == self.index,
    {
        self.index
    }

    /// The record's wire type tag.
    pub fn get_type(&self, ctl: &KstatCtl) -> (r: u8)
        requires
            self.index < ctl@.chain.len(),
        ensures
            r == ctl@.chain[self.index as int].ks_type,
    {
        self.entry(ctl).ks_type
    }

    /// The record's class field, cut at the bounded-text boundary.
    pub fn get_class(&self, ctl: &KstatCtl) -> (r: String)
        requires
            self.index < ctl@.chain.len(),
        ensures
            r@ == spec_trunc(ctl@.chain[self.index as int].class),
    {
        truncate_field(self.entry(ctl).class.as_str())
    }

    /// The record's module field, cut at the bounded-text boundary.
    pub fn get_module(&self, ctl: &KstatCtl) -> (r: String)
        requires
            self.index < ctl@.chain.len(),
        ensures
            r@ == spec_trunc(ctl@.chain[self.index as int].module),
    {
        truncate_field(self.entry(ctl).module.as_str())
    }

    /// The record's name field, cut at the bounded-text boundary.
    pub fn get_name(&self, ctl: &KstatCtl) -> (r: String)
        requires
            self.index < ctl@.chain.len(),
        ensures
            r@ == spec_trunc(ctl@.chain[self.index as int].name),
    {
        truncate_field(self.entry(ctl).name.as_str())
    }

    /// The record's instance number.
    pub fn get_instance(&self, ctl: &KstatCtl) -> (r: i32)
        requires
            self.index < ctl@.chain.len(),
        ensures
            r == ctl@.chain[self.index as int].instance,
    {
        self.entry(ctl).instance
    }

    /// Nanoseconds since boot at the record's last data snapshot.
    pub fn get_snaptime(&self, ctl: &KstatCtl) -> (r: i64)
        requires
            self.index < ctl@.chain.len(),
        ensures
            r == ctl@.chain[self.index as int].snaptime,
    {
        self.entry(ctl).snaptime
    }

    /// Creation time of the record, in nanoseconds since boot.
    pub fn get_crtime(&self, ctl: &KstatCtl) -> (r: i64)
        requires
            self.index < ctl@.chain.len(),
        ensures
            r == ctl@.chain[self.index as int].crtime,
    {
        self.entry(ctl).crtime
    }

    /// The record this cursor stands for.
    fn entry<'a>(&self, ctl: &'a KstatCtl) -> (r: &'a ChainEntry)
        requires
            self.index < ctl@.chain.len(),
        ensures
            r@ == ctl@.chain[self.index as int],
    {
        &ctl.chain[self.index]
    }

    /// Reads this record and decodes its data into a snapshot.  Fails with
    /// exactly the error that [`spec_read_entry`] names: the read
    /// primitive's code, or [`KstatError::Decode`] for data that does not
    /// match the wire format.
    pub fn read(&self, ctl: &KstatCtl) -> (r: Result<KstatData, KstatError>)
        requires
            self.index < ctl@.chain.len(),
        ensures
            match spec_read_entry(ctl@.chain[self.index as int], ctl@.strings) {
                Ok(d) => r matches Ok(x) && x@ == d && x.data.wf(),
                Err(err) => r matches Err(x) && x == err,
            },
    {
        let raws = match ctl.kstat_read(self) {
            Ok(raws) => raws,
            Err(e) => {
                return Err(e);
            },
        };
        let data = match Self::get_data(raws, &ctl.strings) {
            Ok(m) => m,
            Err(e) => {
                return Err(e);
            },
        };
        let e = self.entry(ctl);
        Ok(
            KstatData {
                class: truncate_field(e.class.as_str()),
                module: truncate_field(e.module.as_str()),
                instance: e.instance,
                name: truncate_field(e.name.as_str()),
                snaptime: e.snaptime,
                crtime: e.crtime,
                data,
            },
        )
    }

    /// Decodes a raw named-value list into the mapping it denotes.
    fn get_data(raws: &Vec<RawNamed>, strings: &StringTable) -> (r: Result<KstatMap, KstatError>)
        ensures
            match spec_decode_list(raws_view(raws@), strings@) {
                Some(m) => r matches Ok(km) && km@ == m && km.wf(),
                None => r matches Err(e) && e == KstatError::Decode,
            },
    {
        let mut map = KstatMap::new();
        let n = raws.len();
        let mut i: usize = 0;
        proof {
            assert(raws_view(raws@).take(0) =~= Seq::<RawNamedView>::empty());
        }
        while i < n
            invariant
                i <= n,
                n == raws@.len(),
                spec_decode_list(raws_view(raws@).take(i as int), strings@) == Some(map@),
                map.wf(),
            decreases n - i,
        {
            let named = KstatNamed::new(&raws[i]);
            match named.read(strings) {
                Ok(kv) => {
                    let (key, value) = kv;
                    map.insert(key, value);
                },
                Err(e) => {
                    proof {
                        lemma_decode_list_failure(raws_view(raws@), strings@, i as int);
                    }
                    return Err(e);
                },
            }
            proof {
                assert(raws_view(raws@).take(i + 1).drop_last() =~= raws_view(raws@).take(
                    i as int,
                ));
                assert(raws_view(raws@).take(i + 1).last() == raws@[i as int]@);
            }
            i = i + 1;
        }
        proof {
            assert(raws_view(raws@).take(n as int) =~= raws_view(raws@));
        }
        Ok(map)
    }
}

} // verus!
