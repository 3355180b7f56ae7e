//! The host-side object graph, modeled inside the module.
//!
//! The host keeps, per invocation, a graph of objects (the root scope, nested
//! maps, arrays), a byte value for each (object id, key handle, type tag)
//! slot, an interning table mapping byte keys to small non-negative handles,
//! and the append-only records an invocation produces (log lines, events,
//! cross-contract requests).  Storage is kind-segregated: a read under a
//! different type tag than the one a value was stored under sees absence, it
//! never sees the bytes of another kind.
//!
//! All tables are append-only; a `set` of an existing slot appends a newer
//! entry that shadows the older one, which keeps the model's reasoning to
//! "last match wins".

use vstd::prelude::*;

use crate::keys::Key32;

verus! {

use vstd::string::StrSliceExecFns;
use vstd::string::StringSliceAdditionalSpecFns;

pub const TYPE_ADDRESS: i32 = 1;

pub const TYPE_AGENT_ID: i32 = 2;

pub const TYPE_BYTES: i32 = 3;

pub const TYPE_CHAIN_ID: i32 = 4;

pub const TYPE_COLOR: i32 = 5;

pub const TYPE_CONTRACT_ID: i32 = 6;

pub const TYPE_HASH: i32 = 7;

pub const TYPE_HNAME: i32 = 8;

pub const TYPE_INT: i32 = 9;

pub const TYPE_MAP: i32 = 10;

pub const TYPE_STRING: i32 = 11;

/// Added to an element tag to request an array of that element kind.
pub const TYPE_ARRAY: i32 = 32;

/// Object id of the root scope; dynamic ids start right above it.
pub const OBJ_ID_ROOT: i32 = 1;

pub const FIRST_DYNAMIC_OBJ_ID: i32 = 2;

/// The tags a stored value (as opposed to a sub-object) may carry.
pub open spec fn is_value_tag(tag: i32) -> bool {
    tag == TYPE_ADDRESS || tag == TYPE_AGENT_ID || tag == TYPE_BYTES || tag == TYPE_CHAIN_ID
        || tag == TYPE_COLOR || tag == TYPE_CONTRACT_ID || tag == TYPE_HASH || tag == TYPE_HNAME
        || tag == TYPE_INT || tag == TYPE_STRING
}

/// Byte width of each fixed-width value kind.
pub open spec fn fixed_width(tag: i32) -> int {
    if tag == TYPE_ADDRESS {
        33
    } else if tag == TYPE_AGENT_ID {
        37
    } else if tag == TYPE_CHAIN_ID {
        33
    } else if tag == TYPE_COLOR {
        32
    } else if tag == TYPE_CONTRACT_ID {
        37
    } else if tag == TYPE_HASH {
        32
    } else if tag == TYPE_HNAME {
        4
    } else if tag == TYPE_INT {
        8
    } else {
        0
    }
}

/// What bytes are acceptable in a slot of the given kind.
pub open spec fn value_ok(tag: i32, v: Seq<u8>) -> bool {
    if tag == TYPE_STRING {
        vstd::utf8::valid_utf8(v)
    } else if tag == TYPE_BYTES {
        true
    } else {
        v.len() == fixed_width(tag)
    }
}

pub struct Entry {
    pub obj: i32,
    pub key: i32,
    pub tag: i32,
    pub val: Vec<u8>,
}

pub open spec fn entry_key(e: Entry) -> (i32, i32, i32) {
    (e.obj, e.key, e.tag)
}

/// Description of a dynamically allocated object: resolved or created for a
/// (parent object, key, requested tag) triple.  `tag` is `TYPE_MAP` for a
/// nested map and `elem + TYPE_ARRAY` for an array of kind `elem`.
pub struct ObjDesc {
    pub parent: i32,
    pub key: i32,
    pub tag: i32,
}

pub open spec fn desc_key(d: ObjDesc) -> (i32, i32, i32) {
    (d.parent, d.key, d.tag)
}

pub struct LenEntry {
    pub obj: i32,
    pub len: i32,
}

/// A cross-boundary request an invocation hands to the host; the host acts on
/// it outside the module, so the model only records it.
pub enum Effect {
    Call {
        contract: u32,
        function: u32,
        params: i32,
        results: i32,
        transfer_color: Vec<u8>,
        transfer_amount: i64,
    },
    Post {
        contract_id: Vec<u8>,
        function: u32,
        params: i32,
        transfer_color: Vec<u8>,
        transfer_amount: i64,
        delay: i64,
    },
    Deploy { program_hash: Vec<u8>, name: String, description: String, params: i32 },
    Transfer { address: Vec<u8>, color: Vec<u8>, amount: i64 },
}

/// Last match wins: the value of slot `k` in entry list `s`.
pub open spec fn slot_lookup(s: Seq<Entry>, k: (i32, i32, i32)) -> Option<Seq<u8>>
    decreases s.len(),
{
    if s.len() == 0 {
        None
    } else if entry_key(s.last()) == k {
        Some(s.last().val@)
    } else {
        slot_lookup(s.drop_last(), k)
    }
}

/// First match wins: the index of the object descriptor for a
/// (parent, key, tag) triple.
pub open spec fn desc_lookup(s: Seq<ObjDesc>, k: (i32, i32, i32)) -> Option<int>
    decreases s.len(),
{
    if s.len() == 0 {
        None
    } else if desc_key(s.last()) == k && desc_lookup(s.drop_last(), k) is None {
        Some(s.len() - 1)
    } else {
        desc_lookup(s.drop_last(), k)
    }
}

/// Last match wins: the recorded length of an array object.
pub open spec fn len_lookup(s: Seq<LenEntry>, obj: i32) -> Option<i32>
    decreases s.len(),
{
    if s.len() == 0 {
        None
    } else if s.last().obj == obj {
        Some(s.last().len)
    } else {
        len_lookup(s.drop_last(), obj)
    }
}

/// First match wins: the handle of an interned byte key.
pub open spec fn intern_lookup(s: Seq<Seq<u8>>, b: Seq<u8>) -> Option<int>
    decreases s.len(),
{
    if s.len() == 0 {
        None
    } else if s.last() == b && intern_lookup(s.drop_last(), b) is None {
        Some(s.len() - 1)
    } else {
        intern_lookup(s.drop_last(), b)
    }
}

pub struct Host {
    entries: Vec<Entry>,
    objects: Vec<ObjDesc>,
    lens: Vec<LenEntry>,
    interned: Vec<Vec<u8>>,
    logs: Vec<String>,
    events: Vec<String>,
    effects: Vec<Effect>,
    replies: Vec<i32>,
    replies_used: usize,
}

impl Host {
    /// The value store: bytes per (object id, key handle, type tag) slot.
    pub closed spec fn store(self) -> Map<(i32, i32, i32), Seq<u8>> {
        Map::new(
            |k: (i32, i32, i32)| slot_lookup(self.entries@, k) is Some,
            |k: (i32, i32, i32)| slot_lookup(self.entries@, k)->Some_0,
        )
    }

    /// The dynamic object table; object `objs()[i]` has id `i + 2`.
    pub closed spec fn objs(self) -> Seq<ObjDesc> {
        self.objects@
    }

    /// The raw length records of array objects.
    pub closed spec fn len_records(self) -> Seq<LenEntry> {
        self.lens@
    }

    /// The interning table; the handle of `ikeys()[i]` is `i`.
    pub closed spec fn ikeys(self) -> Seq<Seq<u8>> {
        self.interned@.map_values(|v: Vec<u8>| v@)
    }

    pub closed spec fn log_view(self) -> Seq<Seq<char>> {
        self.logs@.map_values(|s: String| s@)
    }

    pub closed spec fn event_view(self) -> Seq<Seq<char>> {
        self.events@.map_values(|s: String| s@)
    }

    pub closed spec fn effect_view(self) -> Seq<Effect> {
        self.effects@
    }

    /// All results-map object ids the host has lined up as replies to nested
    /// calls, in arrival order.
    pub closed spec fn reply_seq(self) -> Seq<i32> {
        self.replies@
    }

    /// How many of those replies nested calls have consumed so far.
    pub closed spec fn replies_taken(self) -> int {
        self.replies_used as int
    }

    /// The replies not yet handed out.
    pub open spec fn pending_replies(self) -> Seq<i32> {
        self.reply_seq().skip(self.replies_taken())
    }

    pub open spec fn has(self, obj: i32, key: i32, tag: i32) -> bool {
        self.store().contains_key((obj, key, tag))
    }

    /// What a raw read of a slot returns: the stored bytes, or empty if the
    /// slot is absent.
    pub open spec fn read(self, obj: i32, key: i32, tag: i32) -> Seq<u8> {
        if self.has(obj, key, tag) {
            self.store()[(obj, key, tag)]
        } else {
            Seq::empty()
        }
    }

    pub open spec fn is_obj(self, id: i32) -> bool {
        id == OBJ_ID_ROOT || (FIRST_DYNAMIC_OBJ_ID <= id
            && id - FIRST_DYNAMIC_OBJ_ID < self.objs().len())
    }

    pub open spec fn desc_of(self, id: i32) -> ObjDesc
        recommends
            self.is_obj(id) && id != OBJ_ID_ROOT,
    {
        self.objs()[id - FIRST_DYNAMIC_OBJ_ID]
    }

    pub open spec fn is_map_obj(self, id: i32) -> bool {
        id == OBJ_ID_ROOT || (self.is_obj(id) && self.desc_of(id).tag == TYPE_MAP)
    }

    pub open spec fn is_array_obj(self, id: i32) -> bool {
        self.is_obj(id) && id != OBJ_ID_ROOT && self.desc_of(id).tag != TYPE_MAP
    }

    /// Element kind of an array object.
    pub open spec fn elem_tag(self, id: i32) -> i32
        recommends
            self.is_array_obj(id),
    {
        (self.desc_of(id).tag - TYPE_ARRAY) as i32
    }

    /// Current element count of an array object (0 before any write).
    pub open spec fn arr_len(self, id: i32) -> int {
        match len_lookup(self.len_records(), id) {
            Some(l) => l as int,
            None => 0,
        }
    }

    pub open spec fn obj_lookup(self, parent: i32, key: i32, tag: i32) -> Option<int> {
        match desc_lookup(self.objs(), (parent, key, tag)) {
            Some(i) => Some(i + FIRST_DYNAMIC_OBJ_ID),
            None => None,
        }
    }

    pub open spec fn has_ikey(self, b: Seq<u8>) -> bool {
        intern_lookup(self.ikeys(), b) is Some
    }

    pub open spec fn handle_of(self, b: Seq<u8>) -> int
        recommends
            self.has_ikey(b),
    {
        intern_lookup(self.ikeys(), b)->Some_0
    }

    /// A slot that a write of kind `tag` may target: any key of a map object,
    /// or an array index up to and including the current length (the latter
    /// appends).  A write anywhere else is a protocol violation the host
    /// treats as fatal.
    pub open spec fn writable(self, obj: i32, key: i32, tag: i32) -> bool {
        is_value_tag(tag) && (self.is_map_obj(obj) || (self.is_array_obj(obj)
            && self.elem_tag(obj) == tag && 0 <= key <= self.arr_len(obj) && key < i32::MAX))
    }

    /// Every stored value is well formed for its kind and sits under a live
    /// object; array slots are exactly the indices below the array's length.
    pub open spec fn wf(self) -> bool {
        &&& forall|k: (i32, i32, i32)| #[trigger]
            self.store().contains_key(k) ==> is_value_tag(k.2) && value_ok(k.2, self.store()[k])
                && (self.is_map_obj(k.0) || (self.is_array_obj(k.0) && self.elem_tag(k.0) == k.2
                && 0 <= k.1 < self.arr_len(k.0)))
        &&& forall|id: i32| self.is_array_obj(id) ==> forall|i: i32|
            0 <= i < self.arr_len(id) ==> #[trigger] self.has(id, i, self.elem_tag(id))
        &&& forall|i: int| 0 <= i < self.objs().len() ==> (#[trigger] self.objs()[i].tag
            == TYPE_MAP || ((is_value_tag((self.objs()[i].tag - TYPE_ARRAY) as i32)
            || (self.objs()[i].tag - TYPE_ARRAY) as i32 == TYPE_MAP) && self.objs()[i].tag == (
            self.objs()[i].tag - TYPE_ARRAY) as i32 + TYPE_ARRAY))
        &&& forall|id: i32| self.is_array_obj(id) ==> 0 <= #[trigger] self.arr_len(id)
            <= i32::MAX
        &&& forall|i: int| 0 <= i < self.len_records().len() ==> self.is_array_obj(
            (#[trigger] self.len_records()[i]).obj,
        ) && 0 <= self.len_records()[i].len
        &&& 0 <= self.replies_taken() <= self.reply_seq().len()
        &&& forall|i: int| 0 <= i < self.reply_seq().len() ==> self.is_map_obj(
            #[trigger] self.reply_seq()[i],
        )
        &&& self.objs().len() + FIRST_DYNAMIC_OBJ_ID <= i32::MAX
        &&& self.ikeys().len() <= i32::MAX
    }

    /// Room for `n` more interned keys and `n` more dynamic objects; key and
    /// object handles are 32-bit, so allocation needs this machine-limit
    /// bound.
    pub open spec fn headroom(self, n: int) -> bool {
        &&& self.ikeys().len() + n <= i32::MAX
        &&& self.objs().len() + FIRST_DYNAMIC_OBJ_ID + n <= i32::MAX
    }

    /// The new host state grows out of the old one: no object, interned key,
    /// log line, event or effect record is dropped or changed, and array
    /// lengths never shrink.  Values may change.
    pub open spec fn extends(self, old: Host) -> bool {
        &&& old.objs().len() <= self.objs().len()
        &&& forall|i: int| 0 <= i < old.objs().len() ==> #[trigger] self.objs()[i]
            == old.objs()[i]
        &&& old.ikeys().len() <= self.ikeys().len()
        &&& forall|i: int| 0 <= i < old.ikeys().len() ==> #[trigger] self.ikeys()[i]
            == old.ikeys()[i]
        &&& forall|id: i32| old.is_array_obj(id) ==> old.arr_len(id) <= #[trigger] self.arr_len(
            id,
        )
        &&& old.log_view().is_prefix_of(self.log_view())
        &&& old.event_view().is_prefix_of(self.event_view())
        &&& old.effect_view().is_prefix_of(self.effect_view())
    }

    /// The value store is untouched (a read-only or merely allocating step).
    pub open spec fn same_values(self, old: Host) -> bool {
        self.store() == old.store() && forall|id: i32| #[trigger] self.arr_len(id) == old.arr_len(
            id,
        )
    }

    /// No sub-object was created and nothing was interned.
    pub open spec fn same_objects(self, old: Host) -> bool {
        self.objs() == old.objs() && self.ikeys() == old.ikeys()
    }

    /// No log line, event or effect was recorded, and the queue of replies
    /// the host lined up for nested calls is untouched.
    pub open spec fn same_records(self, old: Host) -> bool {
        self.log_view() == old.log_view() && self.event_view() == old.event_view()
            && self.effect_view() == old.effect_view() && self.same_replies(old)
    }

    /// The reply queue and its consumption point are untouched.
    pub open spec fn same_replies(self, old: Host) -> bool {
        self.reply_seq() == old.reply_seq() && self.replies_taken() == old.replies_taken()
    }
}

proof fn lemma_desc_lookup_none(s: Seq<ObjDesc>, k: (i32, i32, i32))
    requires
        forall|j: int| 0 <= j < s.len() ==> desc_key(#[trigger] s[j]) != k,
    ensures
        desc_lookup(s, k) is None,
    decreases s.len(),
{
    if s.len() > 0 {
        lemma_desc_lookup_none(s.drop_last(), k);
    }
}

proof fn lemma_desc_lookup_first(s: Seq<ObjDesc>, k: (i32, i32, i32), i: int)
    requires
        0 <= i < s.len(),
        desc_key(s[i]) == k,
        forall|j: int| 0 <= j < i ==> desc_key(#[trigger] s[j]) != k,
    ensures
        desc_lookup(s, k) == Some(i),
    decreases s.len(),
{
    if i == s.len() - 1 {
        lemma_desc_lookup_none(s.drop_last(), k);
    } else {
        lemma_desc_lookup_first(s.drop_last(), k, i);
    }
}

proof fn lemma_desc_lookup_push(s: Seq<ObjDesc>, d: ObjDesc, k: (i32, i32, i32))
    requires
        desc_lookup(s, k) is Some,
    ensures
        desc_lookup(s.push(d), k) == desc_lookup(s, k),
{
    assert(s.push(d).drop_last() =~= s);
}

proof fn lemma_intern_lookup_none(s: Seq<Seq<u8>>, b: Seq<u8>)
    requires
        forall|j: int| 0 <= j < s.len() ==> #[trigger] s[j] != b,
    ensures
        intern_lookup(s, b) is None,
    decreases s.len(),
{
    if s.len() > 0 {
        lemma_intern_lookup_none(s.drop_last(), b);
    }
}

proof fn lemma_intern_lookup_first(s: Seq<Seq<u8>>, b: Seq<u8>, i: int)
    requires
        0 <= i < s.len(),
        s[i] == b,
        forall|j: int| 0 <= j < i ==> #[trigger] s[j] != b,
    ensures
        intern_lookup(s, b) == Some(i),
    decreases s.len(),
{
    if i == s.len() - 1 {
        lemma_intern_lookup_none(s.drop_last(), b);
    } else {
        lemma_intern_lookup_first(s.drop_last(), b, i);
    }
}

proof fn lemma_intern_lookup_push(s: Seq<Seq<u8>>, d: Seq<u8>, b: Seq<u8>)
    requires
        intern_lookup(s, b) is Some,
    ensures
        intern_lookup(s.push(d), b) == intern_lookup(s, b),
{
    assert(s.push(d).drop_last() =~= s);
}

impl Host {
    /// A fresh, empty host state, as at the start of an invocation before the
    /// host seeds it.
    pub fn new() -> (r: Host)
        ensures
            r.wf(),
            r.store() == Map::<(i32, i32, i32), Seq<u8>>::empty(),
            r.objs() == Seq::<ObjDesc>::empty(),
            r.ikeys() == Seq::<Seq<u8>>::empty(),
            r.log_view() == Seq::<Seq<char>>::empty(),
            r.event_view() == Seq::<Seq<char>>::empty(),
            r.effect_view() == Seq::<Effect>::empty(),
            r.reply_seq() == Seq::<i32>::empty(),
            r.replies_taken() == 0,
            forall|id: i32| #[trigger] r.arr_len(id) == 0,
    {
        let r = Host {
            entries: Vec::new(),
            objects: Vec::new(),
            lens: Vec::new(),
            interned: Vec::new(),
            logs: Vec::new(),
            events: Vec::new(),
            effects: Vec::new(),
            replies: Vec::new(),
            replies_used: 0,
        };
        proof {
            assert(r.store() =~= Map::<(i32, i32, i32), Seq<u8>>::empty());
            assert(r.ikeys() =~= Seq::<Seq<u8>>::empty());
            assert(r.log_view() =~= Seq::<Seq<char>>::empty());
            assert(r.event_view() =~= Seq::<Seq<char>>::empty());
            assert(r.reply_seq() =~= Seq::<i32>::empty());
        }
        r
    }

    /// Index of the newest entry for a slot, if the slot is occupied.
    #[verifier::loop_isolation(false)]
    fn find_slot(&self, obj_id: i32, key_id: i32, type_id: i32) -> (r: Option<usize>)
        ensures
            match r {
                Some(i) => i < self.entries@.len() && entry_key(self.entries@[i as int]) == (
                obj_id,
                key_id,
                type_id,
                ) && slot_lookup(self.entries@, (obj_id, key_id, type_id)) == Some(
                    self.entries@[i as int].val@,
                ),
                None => slot_lookup(self.entries@, (obj_id, key_id, type_id)) is None,
            },
    {
        let ghost k = (obj_id, key_id, type_id);
        let mut i: usize = self.entries.len();
        proof {
            assert(self.entries@.take(i as int) =~= self.entries@);
        }
        while i > 0
            invariant
                i <= self.entries@.len(),
                slot_lookup(self.entries@, k) == slot_lookup(self.entries@.take(i as int), k),
            decreases i,
        {
            i = i - 1;
            let e = &self.entries[i];
            proof {
                assert(self.entries@.take(i + 1).len() == i + 1);
                assert(self.entries@.take(i + 1).last() == self.entries@[i as int]);
                assert(self.entries@.take(i + 1).drop_last() =~= self.entries@.take(i as int));
            }
            if e.obj == obj_id && e.key == key_id && e.tag == type_id {
                proof {
                    assert(entry_key(self.entries@[i as int]) == k);
                    assert(slot_lookup(self.entries@.take(i + 1), k) == Some(
                        self.entries@[i as int].val@,
                    ));
                }
                return Some(i);
            }
            proof {
                assert(entry_key(self.entries@[i as int]) != k);
                assert(slot_lookup(self.entries@.take(i + 1), k) == slot_lookup(
                    self.entries@.take(i as int),
                    k,
                ));
            }
        }
        None
    }

    /// Host bridge primitive: is a value of this kind present at
    /// (object, key)?
    pub fn value_exists(&self, obj_id: i32, key_id: Key32, type_id: i32) -> (r: bool)
        ensures
            r == self.has(obj_id, key_id.0, type_id),
    {
        self.find_slot(obj_id, key_id.0, type_id).is_some()
    }

    /// Host bridge primitive: the bytes stored at (object, key) under this
    /// kind, or empty bytes if the slot is absent.
    pub fn get_bytes(&self, obj_id: i32, key_id: Key32, type_id: i32) -> (r: Vec<u8>)
        ensures
            r@ == self.read(obj_id, key_id.0, type_id),
    {
        match self.find_slot(obj_id, key_id.0, type_id) {
            Some(i) => vstd::slice::slice_to_vec(self.entries[i].val.as_slice()),
            None => Vec::new(),
        }
    }

    /// Current length of an array object (0 before any element was written).
    #[verifier::loop_isolation(false)]
    pub fn get_length(&self, obj_id: i32) -> (r: i32)
        requires
            self.wf(),
            self.is_array_obj(obj_id),
        ensures
            r as int == self.arr_len(obj_id),
    {
        let mut i: usize = self.lens.len();
        proof {
            assert(self.lens@.take(i as int) =~= self.lens@);
        }
        while i > 0
            invariant
                i <= self.lens@.len(),
                len_lookup(self.lens@, obj_id) == len_lookup(self.lens@.take(i as int), obj_id),
            decreases i,
        {
            i = i - 1;
            let e = &self.lens[i];
            proof {
                assert(self.lens@.take(i + 1).last() == self.lens@[i as int]);
                assert(self.lens@.take(i + 1).drop_last() =~= self.lens@.take(i as int));
            }
            if e.obj == obj_id {
                return e.len;
            }
        }
        0
    }

    /// Host bridge primitive: store bytes at (object, key) under the given
    /// kind.  Writing past an array's length, under a kind an array does not
    /// hold, or with bytes ill-formed for the kind is a protocol violation
    /// the host treats as fatal, so such calls are excluded.
    pub fn set_bytes(&mut self, obj_id: i32, key_id: Key32, type_id: i32, value: &[u8])
        requires
            old(self).wf(),
            old(self).writable(obj_id, key_id.0, type_id),
            value_ok(type_id, value@),
        ensures
            final(self).wf(),
            final(self).extends(*old(self)),
            final(self).same_objects(*old(self)),
            final(self).same_records(*old(self)),
            final(self).store() == old(self).store().insert(
                (obj_id, key_id.0, type_id),
                value@,
            ),
            final(self).arr_len(obj_id) == if old(self).is_array_obj(obj_id) && key_id.0 as int
                == old(self).arr_len(obj_id) {
                old(self).arr_len(obj_id) + 1
            } else {
                old(self).arr_len(obj_id)
            },
            forall|id: i32| id != obj_id ==> #[trigger] final(self).arr_len(id) == old(
                self,
            ).arr_len(id),
    {
        let ghost pre = *self;
        let is_arr = self.is_array(obj_id);
        let l = if is_arr {
            self.get_length(obj_id)
        } else {
            0
        };
        let grow = is_arr && key_id.0 == l;
        let e = Entry {
            obj: obj_id,
            key: key_id.0,
            tag: type_id,
            val: vstd::slice::slice_to_vec(value),
        };
        self.entries.push(e);
        proof {
            assert(self.entries@.drop_last() =~= pre.entries@);
            assert(self.store() =~= pre.store().insert((obj_id, key_id.0, type_id), value@));
            assert(self.len_records() == pre.len_records());
        }
        if grow {
            let le = LenEntry { obj: obj_id, len: l + 1 };
            let ghost mid = *self;
            self.lens.push(le);
            proof {
                assert(self.lens@.drop_last() =~= mid.lens@);
                assert(self.len_records().last() == le);
                assert(self.len_records().drop_last() =~= pre.len_records());
                assert(len_lookup(self.len_records(), obj_id) == Some(le.len));
                assert forall|id: i32| id != obj_id implies #[trigger] len_lookup(
                    self.len_records(),
                    id,
                ) == len_lookup(pre.len_records(), id) by {
                    assert(self.len_records().drop_last() =~= pre.len_records());
                }
            }
        }
        proof {
            lemma_wf_after_set(pre, *self, obj_id, key_id.0, type_id, value@);
        }
    }

    /// Whether an object id denotes an array (exec mirror of `is_array_obj`).
    pub fn is_array(&self, obj_id: i32) -> (r: bool)
        requires
            self.wf(),
        ensures
            r == self.is_array_obj(obj_id),
    {
        if obj_id >= FIRST_DYNAMIC_OBJ_ID && ((obj_id - FIRST_DYNAMIC_OBJ_ID) as usize)
            < self.objects.len() {
            self.objects[(obj_id - FIRST_DYNAMIC_OBJ_ID) as usize].tag != TYPE_MAP
        } else {
            false
        }
    }

    /// `get_length` without the array requirement, for internal use.
    #[verifier::loop_isolation(false)]
    fn get_length_inner(&self, obj_id: i32) -> (r: i32)
        ensures
            r as int == self.arr_len(obj_id) || (len_lookup(self.len_records(), obj_id) is None
                && r == 0),
            len_lookup(self.len_records(), obj_id) is Some ==> r as int == self.arr_len(obj_id),
            len_lookup(self.len_records(), obj_id) is None ==> r == 0,
    {
        let mut i: usize = self.lens.len();
        proof {
            assert(self.lens@.take(i as int) =~= self.lens@);
        }
        while i > 0
            invariant
                i <= self.lens@.len(),
                len_lookup(self.lens@, obj_id) == len_lookup(self.lens@.take(i as int), obj_id),
            decreases i,
        {
            i = i - 1;
            let e = &self.lens[i];
            proof {
                assert(self.lens@.take(i + 1).last() == self.lens@[i as int]);
                assert(self.lens@.take(i + 1).drop_last() =~= self.lens@.take(i as int));
            }
            if e.obj == obj_id {
                return e.len;
            }
        }
        0
    }

    /// Host bridge primitive: resolve or create the sub-object (nested map or
    /// array) hanging off (parent object, key) with the requested kind.  The
    /// same triple always yields the same id within one invocation.
    #[verifier::loop_isolation(false)]
    pub fn get_object_id(&mut self, parent: i32, key_id: Key32, type_id: i32) -> (r: i32)
        requires
            old(self).wf(),
            old(self).headroom(1),
            old(self).is_obj(parent),
            type_id == TYPE_MAP || type_id == TYPE_MAP + TYPE_ARRAY || (is_value_tag(
                (type_id - TYPE_ARRAY) as i32,
            ) && TYPE_ARRAY <= type_id <= TYPE_ARRAY + TYPE_STRING),
        ensures
            final(self).wf(),
            final(self).extends(*old(self)),
            final(self).same_values(*old(self)),
            final(self).same_records(*old(self)),
            final(self).ikeys() == old(self).ikeys(),
            final(self).obj_lookup(parent, key_id.0, type_id) == Some(r as int),
            old(self).obj_lookup(parent, key_id.0, type_id) is Some ==> *final(self) == *old(
                self,
            ) && Some(r as int) == old(self).obj_lookup(parent, key_id.0, type_id),
            old(self).obj_lookup(parent, key_id.0, type_id) is None ==> final(self).objs() == old(
                self,
            ).objs().push(ObjDesc { parent, key: key_id.0, tag: type_id }) && r as int == old(
                self,
            ).objs().len() + FIRST_DYNAMIC_OBJ_ID,
            final(self).is_obj(r),
            type_id == TYPE_MAP ==> final(self).is_map_obj(r),
            type_id != TYPE_MAP ==> final(self).is_array_obj(r) && final(self).elem_tag(r)
                == (type_id - TYPE_ARRAY) as i32,
    {
        let ghost k = (parent, key_id.0, type_id);
        let n = self.objects.len();
        let mut i: usize = 0;
        while i < n
            invariant
                i <= n,
                n == self.objects@.len(),
                forall|j: int| 0 <= j < i ==> desc_key(#[trigger] self.objects@[j]) != k,
            decreases n - i,
        {
            let d = &self.objects[i];
            if d.parent == parent && d.key == key_id.0 && d.tag == type_id {
                proof {
                    lemma_desc_lookup_first(self.objs(), k, i as int);
                }
                return (i as i32) + FIRST_DYNAMIC_OBJ_ID;
            }
            i = i + 1;
        }
        proof {
            lemma_desc_lookup_none(self.objs(), k);
        }
        let ghost pre = *self;
        let d = ObjDesc { parent, key: key_id.0, tag: type_id };
        self.objects.push(d);
        proof {
            lemma_desc_lookup_first(self.objs(), k, pre.objs().len() as int);
            lemma_wf_after_new_obj(pre, *self);
        }
        (n as i32) + FIRST_DYNAMIC_OBJ_ID
    }

    /// Allocate a brand-new map object, unconditionally: unlike
    /// `get_object_id` this never reuses an existing object, so the returned
    /// id is fresh and the new map empty.
    pub fn create_object(&mut self, type_id: i32) -> (r: i32)
        requires
            old(self).wf(),
            old(self).headroom(1),
            type_id == TYPE_MAP,
        ensures
            final(self).wf(),
            final(self).extends(*old(self)),
            final(self).same_values(*old(self)),
            final(self).same_records(*old(self)),
            final(self).ikeys() == old(self).ikeys(),
            final(self).objs().len() == old(self).objs().len() + 1,
            !old(self).is_obj(r),
            final(self).is_map_obj(r),
            final(self).desc_of(r).parent == 0,
    {
        let n = self.objects.len();
        let ghost pre = *self;
        let d = ObjDesc { parent: 0, key: 0, tag: type_id };
        self.objects.push(d);
        proof {
            lemma_wf_after_new_obj(pre, *self);
        }
        (n as i32) + FIRST_DYNAMIC_OBJ_ID
    }

    /// Host side of nested-call dispatch: line up a map object as the reply
    /// the next unanswered nested call will receive.  The host fills replies
    /// outside the module; this hands the model the object that holds one.
    pub fn push_reply(&mut self, obj_id: i32)
        requires
            old(self).wf(),
            old(self).is_map_obj(obj_id),
        ensures
            final(self).wf(),
            final(self).extends(*old(self)),
            final(self).same_values(*old(self)),
            final(self).same_objects(*old(self)),
            final(self).log_view() == old(self).log_view(),
            final(self).event_view() == old(self).event_view(),
            final(self).effect_view() == old(self).effect_view(),
            final(self).reply_seq() == old(self).reply_seq().push(obj_id),
            final(self).replies_taken() == old(self).replies_taken(),
    {
        let ghost pre = *self;
        self.replies.push(obj_id);
        proof {
            assert(self.store() == pre.store());
            assert(self.ikeys() =~= pre.ikeys());
            assert(self.log_view() =~= pre.log_view());
            assert(self.event_view() =~= pre.event_view());
            assert(self.reply_seq() =~= pre.reply_seq().push(obj_id));
            assert forall|i: int| 0 <= i < self.reply_seq().len() implies self.is_map_obj(
                #[trigger] self.reply_seq()[i],
            ) by {
                if i < pre.reply_seq().len() {
                    assert(pre.is_map_obj(pre.reply_seq()[i]));
                }
            }
            lemma_wf_preserved_queue(pre, *self);
        }
    }

    /// Take the next host-prepared reply, if one is pending.
    pub(crate) fn take_reply(&mut self) -> (r: Option<i32>)
        requires
            old(self).wf(),
        ensures
            final(self).wf(),
            final(self).extends(*old(self)),
            final(self).same_values(*old(self)),
            final(self).same_objects(*old(self)),
            final(self).log_view() == old(self).log_view(),
            final(self).event_view() == old(self).event_view(),
            final(self).effect_view() == old(self).effect_view(),
            final(self).reply_seq() == old(self).reply_seq(),
            match r {
                Some(id) => old(self).pending_replies().len() > 0 && id == old(
                    self,
                ).pending_replies()[0] && final(self).replies_taken() == old(self).replies_taken()
                    + 1 && final(self).is_map_obj(id),
                None => old(self).pending_replies().len() == 0 && *final(self) == *old(self),
            },
    {
        if self.replies_used < self.replies.len() {
            let id = self.replies[self.replies_used];
            let ghost pre = *self;
            self.replies_used = self.replies_used + 1;
            proof {
                assert(self.store() == pre.store());
                assert(self.ikeys() =~= pre.ikeys());
                assert(self.log_view() =~= pre.log_view());
                assert(self.event_view() =~= pre.event_view());
                assert(pre.is_map_obj(pre.reply_seq()[pre.replies_taken()]));
                assert forall|i: int| 0 <= i < self.reply_seq().len() implies self.is_map_obj(
                    #[trigger] self.reply_seq()[i],
                ) by {
                    assert(pre.is_map_obj(pre.reply_seq()[i]));
                }
                lemma_wf_preserved_queue(pre, *self);
            }
            Some(id)
        } else {
            None
        }
    }

    /// Host bridge primitive: intern a non-empty field name, yielding a
    /// non-negative handle; interning the same name again yields the same
    /// handle and leaves the host unchanged.
    #[verifier::loop_isolation(false)]
    pub fn intern_key(&mut self, name: &str) -> (r: Key32)
        requires
            old(self).wf(),
            old(self).headroom(1),
            name@.len() > 0,
        ensures
            final(self).wf(),
            final(self).extends(*old(self)),
            final(self).same_values(*old(self)),
            final(self).same_records(*old(self)),
            final(self).objs() == old(self).objs(),
            r.0 >= 0,
            final(self).has_ikey(name.spec_bytes()),
            final(self).handle_of(name.spec_bytes()) == r.0 as int,
            old(self).has_ikey(name.spec_bytes()) ==> *final(self) == *old(self) && r.0 as int
                == old(self).handle_of(name.spec_bytes()),
            !old(self).has_ikey(name.spec_bytes()) ==> final(self).ikeys() == old(
                self,
            ).ikeys().push(name.spec_bytes()),
    {
        let bytes: Vec<u8> = name.as_bytes_vec();
        self.intern_key_bytes_inner(bytes)
    }

    /// Host bridge primitive: intern a byte key (a color, an address) the
    /// same way field names are interned.
    pub fn intern_key_bytes(&mut self, key: &[u8]) -> (r: Key32)
        requires
            old(self).wf(),
            old(self).headroom(1),
            key@.len() > 0,
        ensures
            final(self).wf(),
            final(self).extends(*old(self)),
            final(self).same_values(*old(self)),
            final(self).same_records(*old(self)),
            final(self).objs() == old(self).objs(),
            r.0 >= 0,
            final(self).has_ikey(key@),
            final(self).handle_of(key@) == r.0 as int,
            old(self).has_ikey(key@) ==> *final(self) == *old(self) && r.0 as int == old(
                self,
            ).handle_of(key@),
            !old(self).has_ikey(key@) ==> final(self).ikeys() == old(self).ikeys().push(key@),
    {
        self.intern_key_bytes_inner(vstd::slice::slice_to_vec(key))
    }

    #[verifier::loop_isolation(false)]
    fn intern_key_bytes_inner(&mut self, bytes: Vec<u8>) -> (r: Key32)
        requires
            old(self).wf(),
            old(self).headroom(1),
        ensures
            final(self).wf(),
            final(self).extends(*old(self)),
            final(self).same_values(*old(self)),
            final(self).same_records(*old(self)),
            final(self).objs() == old(self).objs(),
            r.0 >= 0,
            final(self).has_ikey(bytes@),
            final(self).handle_of(bytes@) == r.0 as int,
            old(self).has_ikey(bytes@) ==> *final(self) == *old(self) && r.0 as int == old(
                self,
            ).handle_of(bytes@),
            !old(self).has_ikey(bytes@) ==> final(self).ikeys() == old(self).ikeys().push(
                bytes@,
            ),
    {
        let ghost b = bytes@;
        let n = self.interned.len();
        let mut i: usize = 0;
        while i < n
            invariant
                i <= n,
                n == self.interned@.len(),
                bytes@ == b,
                forall|j: int| 0 <= j < i ==> #[trigger] self.interned@[j]@ != b,
            decreases n - i,
        {
            if eq_bytes(self.interned[i].as_slice(), bytes.as_slice()) {
                proof {
                    assert(self.ikeys()[i as int] == b);
                    assert(forall|j: int| 0 <= j < i ==> #[trigger] self.ikeys()[j] != b);
                    lemma_intern_lookup_first(self.ikeys(), b, i as int);
                }
                return Key32(i as i32);
            }
            i = i + 1;
        }
        proof {
            assert(forall|j: int| 0 <= j < self.ikeys().len() ==> #[trigger] self.ikeys()[j]
                != b);
            lemma_intern_lookup_none(self.ikeys(), b);
        }
        let ghost pre = *self;
        self.interned.push(bytes);
        proof {
            assert(self.ikeys() =~= pre.ikeys().push(b));
            lemma_intern_lookup_first(self.ikeys(), b, pre.ikeys().len() as int);
            assert(self.store() == pre.store());
            lemma_wf_preserved(pre, *self);
        }
        Key32(n as i32)
    }

    /// Record a log line.
    pub fn append_log(&mut self, text: &str)
        requires
            old(self).wf(),
        ensures
            final(self).wf(),
            final(self).extends(*old(self)),
            final(self).same_values(*old(self)),
            final(self).same_objects(*old(self)),
            final(self).log_view() == old(self).log_view().push(text@),
            final(self).event_view() == old(self).event_view(),
            final(self).effect_view() == old(self).effect_view(),
            final(self).same_replies(*old(self)),
    {
        let ghost pre = *self;
        self.logs.push(text.to_owned());
        proof {
            assert(self.log_view() =~= pre.log_view().push(text@));
            assert(self.store() == pre.store());
            assert(self.ikeys() =~= pre.ikeys());
            assert(self.event_view() =~= pre.event_view());
            lemma_wf_preserved(pre, *self);
        }
    }

    /// Record an event entry.
    pub fn append_event(&mut self, text: &str)
        requires
            old(self).wf(),
        ensures
            final(self).wf(),
            final(self).extends(*old(self)),
            final(self).same_values(*old(self)),
            final(self).same_objects(*old(self)),
            final(self).event_view() == old(self).event_view().push(text@),
            final(self).log_view() == old(self).log_view(),
            final(self).effect_view() == old(self).effect_view(),
            final(self).same_replies(*old(self)),
    {
        let ghost pre = *self;
        self.events.push(text.to_owned());
        proof {
            assert(self.event_view() =~= pre.event_view().push(text@));
            assert(self.store() == pre.store());
            assert(self.ikeys() =~= pre.ikeys());
            assert(self.log_view() =~= pre.log_view());
            lemma_wf_preserved(pre, *self);
        }
    }

    /// Record a cross-boundary request for the host to act on.
    pub(crate) fn push_effect(&mut self, e: Effect)
        requires
            old(self).wf(),
        ensures
            final(self).wf(),
            final(self).extends(*old(self)),
            final(self).same_values(*old(self)),
            final(self).same_objects(*old(self)),
            final(self).effect_view() == old(self).effect_view().push(e),
            final(self).log_view() == old(self).log_view(),
            final(self).event_view() == old(self).event_view(),
            final(self).same_replies(*old(self)),
    {
        let ghost pre = *self;
        self.effects.push(e);
        proof {
            assert(self.store() == pre.store());
            assert(self.ikeys() =~= pre.ikeys());
            assert(self.log_view() =~= pre.log_view());
            assert(self.event_view() =~= pre.event_view());
            lemma_wf_preserved(pre, *self);
        }
    }

    /// Number of dynamically allocated objects so far.
    pub fn obj_count(&self) -> (r: usize)
        ensures
            r == self.objs().len(),
    {
        self.objects.len()
    }

    /// Number of log lines so far.
    pub fn log_count(&self) -> (r: usize)
        ensures
            r == self.log_view().len(),
    {
        self.logs.len()
    }

    /// A recorded log line.
    pub fn log_at(&self, i: usize) -> (r: &String)
        requires
            i < self.log_view().len(),
        ensures
            r@ == self.log_view()[i as int],
    {
        &self.logs[i]
    }

    /// Number of events so far.
    pub fn event_count(&self) -> (r: usize)
        ensures
            r == self.event_view().len(),
    {
        self.events.len()
    }

    /// A recorded event entry.
    pub fn event_at(&self, i: usize) -> (r: &String)
        requires
            i < self.event_view().len(),
        ensures
            r@ == self.event_view()[i as int],
    {
        &self.events[i]
    }

    /// Number of recorded cross-boundary requests.
    pub fn effect_count(&self) -> (r: usize)
        ensures
            r == self.effect_view().len(),
    {
        self.effects.len()
    }
}

/// Byte-slice equality.
#[verifier::loop_isolation(false)]
fn eq_bytes(a: &[u8], b: &[u8]) -> (r: bool)
    ensures
        r == (a@ == b@),
{
    if a.len() != b.len() {
        proof {
            assert(a@.len() != b@.len());
        }
        return false;
    }
    let n = a.len();
    let mut i: usize = 0;
    while i < n
        invariant
            i <= n,
            n == a@.len(),
            n == b@.len(),
            forall|j: int| 0 <= j < i ==> a@[j] == b@[j],
        decreases n - i,
    {
        if a[i] != b[i] {
            return false;
        }
        i = i + 1;
    }
    proof {
        assert(a@ =~= b@);
    }
    true
}

proof fn lemma_wf_after_set(pre: Host, post: Host, obj: i32, key: i32, tag: i32, v: Seq<u8>)
    requires
        pre.wf(),
        pre.writable(obj, key, tag),
        value_ok(tag, v),
        post.store() == pre.store().insert((obj, key, tag), v),
        post.objs() == pre.objs(),
        post.ikeys() == pre.ikeys(),
        post.arr_len(obj) == if pre.is_array_obj(obj) && key as int == pre.arr_len(obj) {
            pre.arr_len(obj) + 1
        } else {
            pre.arr_len(obj)
        },
        forall|id: i32| id != obj ==> #[trigger] post.arr_len(id) == pre.arr_len(id),
        post.len_records() == pre.len_records() || (post.len_records() == pre.len_records().push(
            post.len_records().last(),
        ) && post.len_records().last().obj == obj && 0 <= post.len_records().last().len
            && pre.is_array_obj(obj)),
        post.reply_seq() == pre.reply_seq(),
        post.replies_taken() == pre.replies_taken(),
    ensures
        post.wf(),
{
    assert forall|i: int| 0 <= i < post.reply_seq().len() implies post.is_map_obj(
        #[trigger] post.reply_seq()[i],
    ) by {
        assert(pre.is_map_obj(pre.reply_seq()[i]));
    }
    assert forall|k: (i32, i32, i32)| #[trigger] post.store().contains_key(k) implies
        is_value_tag(k.2) && value_ok(k.2, post.store()[k]) && (post.is_map_obj(k.0) || (
    post.is_array_obj(k.0) && post.elem_tag(k.0) == k.2 && 0 <= k.1 < post.arr_len(k.0))) by {
        if k == (obj, key, tag) {
            assert(pre.arr_len(obj) <= post.arr_len(obj));
        } else {
            assert(pre.store().contains_key(k));
            assert(is_value_tag(k.2) && value_ok(k.2, pre.store()[k]));
            assert(pre.is_map_obj(k.0) || (pre.is_array_obj(k.0) && pre.elem_tag(k.0) == k.2 && 0
                <= k.1 < pre.arr_len(k.0)));
            assert(pre.arr_len(k.0) <= post.arr_len(k.0));
        }
    }
    assert forall|id: i32| post.is_array_obj(id) implies forall|i: i32|
        0 <= i < post.arr_len(id) ==> #[trigger] post.has(id, i, post.elem_tag(id)) by {
        assert(pre.is_array_obj(id));
        assert forall|i: i32| 0 <= i < post.arr_len(id) implies #[trigger] post.has(
            id,
            i,
            post.elem_tag(id),
        ) by {
            if id == obj && pre.is_array_obj(obj) && key as int == pre.arr_len(obj) && i == key {
                assert(post.store().contains_key((obj, key, tag)));
                assert(pre.elem_tag(obj) == tag);
            } else {
                if id == obj && pre.is_array_obj(obj) && key as int == pre.arr_len(obj) {
                    assert(i != key);
                    assert(i < pre.arr_len(id));
                } else {
                    assert(post.arr_len(id) == pre.arr_len(id));
                }
                assert(0 <= i < pre.arr_len(id));
                assert(pre.has(id, i, pre.elem_tag(id)));
                assert(post.store().contains_key((id, i, pre.elem_tag(id))));
            }
        }
    }
    assert forall|id: i32| post.is_array_obj(id) implies 0 <= #[trigger] post.arr_len(id)
        <= i32::MAX by {
        assert(pre.is_array_obj(id));
        assert(0 <= pre.arr_len(id) <= i32::MAX);
        if id == obj && key as int == pre.arr_len(obj) {
            assert(key < i32::MAX);
        }
    }
    assert forall|i: int| 0 <= i < post.len_records().len() implies post.is_array_obj(
        (#[trigger] post.len_records()[i]).obj,
    ) && 0 <= post.len_records()[i].len by {
        if i < pre.len_records().len() {
            assert(post.len_records()[i] == pre.len_records()[i]);
            assert(pre.is_array_obj(pre.len_records()[i].obj));
        }
    }
}

/// Well-formedness only looks at the value store, the object table, the
/// length records, the interning table's size and the reply queue, so a step
/// that keeps those keeps well-formedness.
proof fn lemma_wf_preserved(pre: Host, post: Host)
    requires
        pre.wf(),
        post.store() == pre.store(),
        post.objs() == pre.objs(),
        post.len_records() == pre.len_records(),
        post.ikeys().len() <= i32::MAX,
        post.reply_seq() == pre.reply_seq(),
        post.replies_taken() == pre.replies_taken(),
    ensures
        post.wf(),
{
    assert forall|i: int| 0 <= i < post.reply_seq().len() implies post.is_map_obj(
        #[trigger] post.reply_seq()[i],
    ) by {
        assert(pre.is_map_obj(pre.reply_seq()[i]));
    }
    lemma_wf_preserved_queue(pre, post);
}

/// The same, for a step that replaces the reply queue with another
/// well-formed one.
proof fn lemma_wf_preserved_queue(pre: Host, post: Host)
    requires
        pre.wf(),
        post.store() == pre.store(),
        post.objs() == pre.objs(),
        post.len_records() == pre.len_records(),
        post.ikeys().len() <= i32::MAX,
        0 <= post.replies_taken() <= post.reply_seq().len(),
        forall|i: int| 0 <= i < post.reply_seq().len() ==> post.is_map_obj(
            #[trigger] post.reply_seq()[i],
        ),
    ensures
        post.wf(),
{
    assert forall|k: (i32, i32, i32)| #[trigger] post.store().contains_key(k) implies
        is_value_tag(k.2) && value_ok(k.2, post.store()[k]) && (post.is_map_obj(k.0) || (
    post.is_array_obj(k.0) && post.elem_tag(k.0) == k.2 && 0 <= k.1 < post.arr_len(k.0))) by {
        assert(pre.store().contains_key(k));
        assert(is_value_tag(k.2) && value_ok(k.2, pre.store()[k]));
        assert(pre.is_map_obj(k.0) || (pre.is_array_obj(k.0) && pre.elem_tag(k.0) == k.2 && 0
            <= k.1 < pre.arr_len(k.0)));
        assert(post.arr_len(k.0) == pre.arr_len(k.0));
    }
    assert forall|id: i32| post.is_array_obj(id) implies forall|i: i32|
        0 <= i < post.arr_len(id) ==> #[trigger] post.has(id, i, post.elem_tag(id)) by {
        assert(pre.is_array_obj(id));
        assert forall|i: i32| 0 <= i < post.arr_len(id) implies #[trigger] post.has(
            id,
            i,
            post.elem_tag(id),
        ) by {
            assert(post.arr_len(id) == pre.arr_len(id));
            assert(pre.has(id, i, pre.elem_tag(id)));
        }
    }
    assert forall|id: i32| post.is_array_obj(id) implies 0 <= #[trigger] post.arr_len(id)
        <= i32::MAX by {
        assert(pre.is_array_obj(id));
        assert(post.arr_len(id) == pre.arr_len(id));
        assert(0 <= pre.arr_len(id) <= i32::MAX);
    }
    assert forall|i: int| 0 <= i < post.len_records().len() implies post.is_array_obj(
        (#[trigger] post.len_records()[i]).obj,
    ) && 0 <= post.len_records()[i].len by {
        assert(pre.is_array_obj((pre.len_records()[i]).obj));
    }
}

proof fn lemma_wf_after_new_obj(pre: Host, post: Host)
    requires
        pre.wf(),
        post.objs().len() == pre.objs().len() + 1,
        forall|i: int| 0 <= i < pre.objs().len() ==> #[trigger] post.objs()[i] == pre.objs()[i],
        post.objs().last().tag == TYPE_MAP || post.objs().last().tag == TYPE_MAP + TYPE_ARRAY
            || (is_value_tag((post.objs().last().tag - TYPE_ARRAY) as i32) && TYPE_ARRAY
            <= post.objs().last().tag <= TYPE_ARRAY + TYPE_STRING),
        post.objs().len() + FIRST_DYNAMIC_OBJ_ID <= i32::MAX,
        post.store() == pre.store(),
        post.len_records() == pre.len_records(),
        post.ikeys() == pre.ikeys(),
        post.reply_seq() == pre.reply_seq(),
        post.replies_taken() == pre.replies_taken(),
    ensures
        post.wf(),
{
    let newid = (pre.objs().len() + FIRST_DYNAMIC_OBJ_ID) as i32;
    assert forall|i: int| 0 <= i < post.reply_seq().len() implies post.is_map_obj(
        #[trigger] post.reply_seq()[i],
    ) by {
        assert(pre.is_map_obj(pre.reply_seq()[i]));
        let id = pre.reply_seq()[i];
        if id != OBJ_ID_ROOT {
            assert(post.objs()[id - FIRST_DYNAMIC_OBJ_ID] == pre.objs()[id
                - FIRST_DYNAMIC_OBJ_ID]);
        }
    }
    assert(forall|id: i32| id != newid ==> (#[trigger] post.is_array_obj(id))
        == pre.is_array_obj(id) && post.is_map_obj(id) == pre.is_map_obj(id));
    assert(forall|j: int| 0 <= j < pre.len_records().len() ==> (
    #[trigger] pre.len_records()[j]).obj != newid) by {
        assert forall|j: int| 0 <= j < pre.len_records().len() implies (
        #[trigger] pre.len_records()[j]).obj != newid by {
            assert(pre.is_array_obj(pre.len_records()[j].obj));
        }
    }
    lemma_len_lookup_none(pre.len_records(), newid);
    assert(post.arr_len(newid) == 0);
    assert forall|k: (i32, i32, i32)| #[trigger] post.store().contains_key(k) implies
        is_value_tag(k.2) && value_ok(k.2, post.store()[k]) && (post.is_map_obj(k.0) || (
    post.is_array_obj(k.0) && post.elem_tag(k.0) == k.2 && 0 <= k.1 < post.arr_len(k.0))) by {
        assert(pre.store().contains_key(k));
        assert(is_value_tag(k.2) && value_ok(k.2, pre.store()[k]));
        assert(pre.is_map_obj(k.0) || (pre.is_array_obj(k.0) && pre.elem_tag(k.0) == k.2 && 0
            <= k.1 < pre.arr_len(k.0)));
        assert(k.0 != newid);
        assert(post.arr_len(k.0) == pre.arr_len(k.0));
    }
    assert forall|id: i32| post.is_array_obj(id) implies forall|i: i32|
        0 <= i < post.arr_len(id) ==> #[trigger] post.has(id, i, post.elem_tag(id)) by {
        assert forall|i: i32| 0 <= i < post.arr_len(id) implies #[trigger] post.has(
            id,
            i,
            post.elem_tag(id),
        ) by {
            assert(id != newid);
            assert(pre.is_array_obj(id));
            assert(post.arr_len(id) == pre.arr_len(id));
            assert(pre.has(id, i, pre.elem_tag(id)));
        }
    }
    assert forall|id: i32| post.is_array_obj(id) implies 0 <= #[trigger] post.arr_len(id)
        <= i32::MAX by {
        if id != newid {
            assert(pre.is_array_obj(id));
            assert(post.arr_len(id) == pre.arr_len(id));
            assert(0 <= pre.arr_len(id) <= i32::MAX);
        }
    }
    assert forall|i: int| 0 <= i < post.len_records().len() implies post.is_array_obj(
        (#[trigger] post.len_records()[i]).obj,
    ) && 0 <= post.len_records()[i].len by {
        assert(pre.is_array_obj((pre.len_records()[i]).obj));
        assert(pre.len_records()[i].obj != newid);
    }
}

proof fn lemma_desc_lookup_sound(s: Seq<ObjDesc>, k: (i32, i32, i32))
    requires
        desc_lookup(s, k) is Some,
    ensures
        ({
            let i = desc_lookup(s, k)->Some_0;
            0 <= i < s.len() && desc_key(s[i]) == k
        }),
    decreases s.len(),
{
    if s.len() > 0 && !(desc_key(s.last()) == k && desc_lookup(s.drop_last(), k) is None) {
        lemma_desc_lookup_sound(s.drop_last(), k);
    }
}

proof fn lemma_desc_lookup_extends(s1: Seq<ObjDesc>, s2: Seq<ObjDesc>, k: (i32, i32, i32))
    requires
        s1.len() <= s2.len(),
        forall|i: int| 0 <= i < s1.len() ==> #[trigger] s2[i] == s1[i],
        desc_lookup(s1, k) is Some,
    ensures
        desc_lookup(s2, k) == desc_lookup(s1, k),
    decreases s2.len(),
{
    if s2.len() == s1.len() {
        assert(s2 =~= s1);
    } else {
        lemma_desc_lookup_extends(s1, s2.drop_last(), k);
    }
}

proof fn lemma_intern_lookup_extends(s1: Seq<Seq<u8>>, s2: Seq<Seq<u8>>, b: Seq<u8>)
    requires
        s1.len() <= s2.len(),
        forall|i: int| 0 <= i < s1.len() ==> #[trigger] s2[i] == s1[i],
        intern_lookup(s1, b) is Some,
    ensures
        intern_lookup(s2, b) == intern_lookup(s1, b),
    decreases s2.len(),
{
    if s2.len() == s1.len() {
        assert(s2 =~= s1);
    } else {
        lemma_intern_lookup_extends(s1, s2.drop_last(), b);
    }
}

/// A stored fixed-width value always has its kind's exact width: the host
/// refuses ill-sized writes as fatal, so a read can never see a truncated or
/// padded buffer for a fixed-width kind.
pub proof fn lemma_stored_fixed_width(h: Host, obj: i32, key: i32, tag: i32)
    requires
        h.wf(),
        h.has(obj, key, tag),
        tag != TYPE_STRING,
        tag != TYPE_BYTES,
    ensures
        h.store()[(obj, key, tag)].len() == fixed_width(tag),
{
}

/// An id that is not yet an object holds no values at all.
pub proof fn lemma_fresh_obj_empty(h: Host, id: i32, key: i32, tag: i32)
    requires
        h.wf(),
        !h.is_obj(id),
    ensures
        !h.has(id, key, tag),
{
    if h.store().contains_key((id, key, tag)) {
        assert(h.is_map_obj(id) || h.is_array_obj(id));
    }
}

/// Host growth composes.
pub proof fn lemma_extends_trans(a: Host, b: Host, c: Host)
    requires
        b.extends(a),
        c.extends(b),
    ensures
        c.extends(a),
{
    assert forall|id: i32| a.is_array_obj(id) implies a.arr_len(id) <= #[trigger] c.arr_len(
        id,
    ) by {
        lemma_extends_objects(a, b, id);
    }
    assert(a.log_view().is_prefix_of(c.log_view()));
    assert(a.event_view().is_prefix_of(c.event_view()));
    assert(a.effect_view().is_prefix_of(c.effect_view()));
}

/// A resolved sub-object id survives host growth.
pub proof fn lemma_extends_obj_lookup(pre: Host, post: Host, parent: i32, key: i32, tag: i32)
    requires
        post.extends(pre),
        pre.obj_lookup(parent, key, tag) is Some,
    ensures
        post.obj_lookup(parent, key, tag) == pre.obj_lookup(parent, key, tag),
{
    lemma_desc_lookup_extends(pre.objs(), post.objs(), (parent, key, tag));
}

/// Interning idempotence: once a name is interned, its handle never changes,
/// so interning the same name again within one invocation yields the same
/// handle (`intern_key` then answers from the table and leaves the host
/// untouched).
pub proof fn lemma_intern_idempotent(pre: Host, post: Host, b: Seq<u8>)
    requires
        post.extends(pre),
        pre.has_ikey(b),
    ensures
        post.has_ikey(b),
        post.handle_of(b) == pre.handle_of(b),
{
    lemma_intern_lookup_extends(pre.ikeys(), post.ikeys(), b);
}

/// Array bounds: an index below the array's length holds a value of the
/// element kind; the length and everything beyond it read as absent.
pub proof fn lemma_array_bounds(h: Host, arr: i32, i: i32)
    requires
        h.wf(),
        h.is_array_obj(arr),
    ensures
        0 <= i < h.arr_len(arr) ==> h.has(arr, i, h.elem_tag(arr)),
        i >= h.arr_len(arr) ==> !h.has(arr, i, h.elem_tag(arr)),
{
    if h.store().contains_key((arr, i, h.elem_tag(arr))) {
        assert(h.is_map_obj(arr) || (h.is_array_obj(arr) && 0 <= i < h.arr_len(arr)));
    }
}

/// An interned key's handle survives host growth.
pub proof fn lemma_extends_handle(pre: Host, post: Host, b: Seq<u8>)
    requires
        post.extends(pre),
        pre.has_ikey(b),
    ensures
        post.has_ikey(b),
        post.handle_of(b) == pre.handle_of(b),
{
    lemma_intern_lookup_extends(pre.ikeys(), post.ikeys(), b);
}

/// Two different (parent, key, tag) triples never resolve to the same
/// object id.
pub proof fn lemma_obj_lookup_distinct(
    h: Host,
    p1: i32,
    k1: i32,
    t1: i32,
    p2: i32,
    k2: i32,
    t2: i32,
)
    requires
        h.obj_lookup(p1, k1, t1) is Some,
        h.obj_lookup(p2, k2, t2) is Some,
        (p1, k1, t1) != (p2, k2, t2),
    ensures
        h.obj_lookup(p1, k1, t1) != h.obj_lookup(p2, k2, t2),
{
    lemma_desc_lookup_sound(h.objs(), (p1, k1, t1));
    lemma_desc_lookup_sound(h.objs(), (p2, k2, t2));
}

/// A resolved object id denotes a live object whose descriptor carries the
/// triple it was resolved from.
pub proof fn lemma_obj_lookup_sound(h: Host, parent: i32, key: i32, tag: i32)
    requires
        h.obj_lookup(parent, key, tag) is Some,
    ensures
        ({
            let id = h.obj_lookup(parent, key, tag)->Some_0;
            &&& FIRST_DYNAMIC_OBJ_ID <= id < h.objs().len() + FIRST_DYNAMIC_OBJ_ID
            &&& desc_key(h.objs()[id - FIRST_DYNAMIC_OBJ_ID]) == (parent, key, tag)
        }),
{
    lemma_desc_lookup_sound(h.objs(), (parent, key, tag));
}

/// Objects persist across host growth: a map object stays a map object, an
/// array keeps its element kind.
pub proof fn lemma_extends_objects(pre: Host, post: Host, obj: i32)
    requires
        pre.is_obj(obj),
        post.extends(pre),
    ensures
        post.is_obj(obj),
        post.is_map_obj(obj) == pre.is_map_obj(obj),
        post.is_array_obj(obj) == pre.is_array_obj(obj),
        obj != OBJ_ID_ROOT ==> post.desc_of(obj) == pre.desc_of(obj),
        pre.is_array_obj(obj) ==> post.elem_tag(obj) == pre.elem_tag(obj) && pre.arr_len(obj)
            <= post.arr_len(obj),
{
    if obj != OBJ_ID_ROOT {
        assert(post.objs()[obj - FIRST_DYNAMIC_OBJ_ID] == pre.objs()[obj - FIRST_DYNAMIC_OBJ_ID]);
    }
}

proof fn lemma_len_lookup_none(s: Seq<LenEntry>, id: i32)
    requires
        forall|j: int| 0 <= j < s.len() ==> (#[trigger] s[j]).obj != id,
    ensures
        len_lookup(s, id) is None,
    decreases s.len(),
{
    if s.len() > 0 {
        lemma_len_lookup_none(s.drop_last(), id);
    }
}

} // verus!

