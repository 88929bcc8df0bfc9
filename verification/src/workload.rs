//! Work items: the typed requests that the generator hands to the drivers.

use crate::keyspace::{drawn_from, Keyspace, Verb};
use vstd::prelude::*;

verus! {

/// Store a value unless the key exists.
#[derive(Clone, Debug, PartialEq, Eq)]
pub struct Add {
    pub key: Vec<u8>,
    pub value: Vec<u8>,
}

/// Read the value of a key.
#[derive(Clone, Debug, PartialEq, Eq)]
pub struct Get {
    pub key: Vec<u8>,
}

/// Remove a key.
#[derive(Clone, Debug, PartialEq, Eq)]
pub struct Delete {
    pub key: Vec<u8>,
}

/// Ask whether a hash has a field.
#[derive(Clone, Debug, PartialEq, Eq)]
pub struct HashExists {
    pub key: Vec<u8>,
    pub field: Vec<u8>,
}

/// Remove fields from a hash.
#[derive(Clone, Debug, PartialEq, Eq)]
pub struct HashDelete {
    pub key: Vec<u8>,
    pub fields: Vec<Vec<u8>>,
}

/// Store a value under a key.
#[derive(Clone, Debug, PartialEq, Eq)]
pub struct Put {
    pub key: Vec<u8>,
    pub value: Vec<u8>,
}

/// One request against the service, with its buffers.
#[derive(Clone, Debug, PartialEq, Eq)]
pub enum ClientRequest {
    Add(Add),
    Get(Get),
    Delete(Delete),
    HashExists(HashExists),
    HashDelete(HashDelete),
    /// Retrieve one or more fields from a hash.
    HashGet { key: Vec<u8>, fields: Vec<Vec<u8>> },
    HashGetAll { key: Vec<u8> },
    HashIncrement { key: Vec<u8>, field: Vec<u8>, amount: i64 },
    /// Store field and value pairs in a hash.
    HashSet { key: Vec<u8>, data: Vec<(Vec<u8>, Vec<u8>)> },
    /// Fetch all elements of a list.
    ListFetch { key: Vec<u8> },
    /// Return the length of a list.
    ListLength { key: Vec<u8> },
    /// Remove and return the element at the back of a list.
    ListPopBack { key: Vec<u8> },
    /// Remove and return the element at the front of a list.
    ListPopFront { key: Vec<u8> },
    /// Push one or more elements to the back of a list.
    ListPushBack { key: Vec<u8>, elements: Vec<Vec<u8>>, truncate: Option<u32> },
    /// Push one or more elements to the front of a list.
    ListPushFront { key: Vec<u8>, elements: Vec<Vec<u8>>, truncate: Option<u32> },
    /// Return the elements of a list between the given indices.
    ListRange { key: Vec<u8>, start: i64, stop: i64 },
    /// Remove all instances of an element from a list.
    ListRemove { key: Vec<u8>, element: Vec<u8> },
    /// Create or replace a list.
    ListStore { key: Vec<u8>, elements: Vec<Vec<u8>> },
    MultiGet { keys: Vec<Vec<u8>> },
    Reconnect,
    Replace { key: Vec<u8>, value: Vec<u8> },
    Put(Put),
    SetAdd { key: Vec<u8>, members: Vec<Vec<u8>> },
    SetMembers { key: Vec<u8> },
    SetRemove { key: Vec<u8>, members: Vec<Vec<u8>> },
    /// Members with their scores; a score is held as the bits of an IEEE 754
    /// double.
    SortedSetAdd { key: Vec<u8>, members: Vec<(Vec<u8>, u64)> },
    SortedSetMembers { key: Vec<u8> },
    /// The amount is held as the bits of an IEEE 754 double.
    SortedSetIncrement { key: Vec<u8>, member: Vec<u8>, amount: u64 },
    SortedSetRank { key: Vec<u8>, member: Vec<u8> },
    SortedSetRemove { key: Vec<u8>, members: Vec<Vec<u8>> },
    SortedSetScore { key: Vec<u8>, members: Vec<Vec<u8>> },
    Ping,
    Publish { topic: String, message: Vec<u8> },
}

/// One item of the work queue.
#[derive(Clone, Debug, PartialEq, Eq)]
pub enum ClientWorkItem {
    /// Drop the connection and open a new one.
    Reconnect,
    /// Issue a request. Sequence numbers count the requests of one generator.
    Request { request: ClientRequest, sequence: u64 },
}

/// What a driver needs to know of a work item to account for it.
#[derive(Clone, Copy, Debug, PartialEq, Eq, Structural)]
pub enum WorkKind {
    /// Drop the connection and open a new one.
    Reconnect,
    /// A request with this command.
    Command(Verb),
    /// A request that no command of a workload stands for.
    Other,
}

impl ClientRequest {
    /// The command that this request carries out, if a workload has one for
    /// it.
    pub open spec fn spec_verb(&self) -> Option<Verb> {
        match self {
            ClientRequest::Add(_) => None,
            ClientRequest::Get(_) => Some(Verb::Get),
            ClientRequest::Delete(_) => Some(Verb::Delete),
            ClientRequest::HashExists(_) => Some(Verb::HashExists),
            ClientRequest::HashDelete(_) => Some(Verb::HashDelete),
            ClientRequest::HashGet { key, fields } => if fields.len() == 1 {
                Some(Verb::HashGet)
            } else {
                Some(Verb::HashMultiGet)
            },
            ClientRequest::HashGetAll { .. } => None,
            ClientRequest::HashIncrement { .. } => Some(Verb::HashIncrement),
            ClientRequest::HashSet { .. } => Some(Verb::HashSet),
            ClientRequest::ListFetch { .. } => Some(Verb::ListFetch),
            ClientRequest::ListLength { .. } => Some(Verb::ListLength),
            ClientRequest::ListPopBack { .. } => Some(Verb::ListPopBack),
            ClientRequest::ListPopFront { .. } => Some(Verb::ListPopFront),
            ClientRequest::ListPushBack { .. } => Some(Verb::ListPushBack),
            ClientRequest::ListPushFront { .. } => Some(Verb::ListPushFront),
            ClientRequest::ListRange { .. } => Some(Verb::ListRange),
            ClientRequest::ListRemove { .. } => Some(Verb::ListRemove),
            ClientRequest::ListStore { .. } => Some(Verb::ListStore),
            ClientRequest::MultiGet { .. } => Some(Verb::MultiGet),
            ClientRequest::Reconnect => Some(Verb::Reconnect),
            ClientRequest::Replace { .. } => None,
            ClientRequest::Put(_) => Some(Verb::Put),
            ClientRequest::SetAdd { .. } => Some(Verb::SetAdd),
            ClientRequest::SetMembers { .. } => Some(Verb::SetMembers),
            ClientRequest::SetRemove { .. } => Some(Verb::SetRemove),
            ClientRequest::SortedSetAdd { .. } => Some(Verb::SortedSetAdd),
            ClientRequest::SortedSetMembers { .. } => Some(Verb::SortedSetMembers),
            ClientRequest::SortedSetIncrement { .. } => Some(Verb::SortedSetIncrement),
            ClientRequest::SortedSetRank { .. } => Some(Verb::SortedSetRank),
            ClientRequest::SortedSetRemove { .. } => Some(Verb::SortedSetRemove),
            ClientRequest::SortedSetScore { .. } => Some(Verb::SortedSetScore),
            ClientRequest::Ping => Some(Verb::Ping),
            ClientRequest::Publish { .. } => Some(Verb::Publish),
        }
    }

    /// The command that this request carries out, if a workload has one for
    /// it.
    pub fn verb(&self) -> (out: Option<Verb>)
        ensures
            out == self.spec_verb(),
    {
        match self {
            ClientRequest::Add(_) => None,
            ClientRequest::Get(_) => Some(Verb::Get),
            ClientRequest::Delete(_) => Some(Verb::Delete),
            ClientRequest::HashExists(_) => Some(Verb::HashExists),
            ClientRequest::HashDelete(_) => Some(Verb::HashDelete),
            ClientRequest::HashGet { key, fields } => if fields.len() == 1 {
                Some(Verb::HashGet)
            } else {
                Some(Verb::HashMultiGet)
            },
            ClientRequest::HashGetAll { .. } => None,
            ClientRequest::HashIncrement { .. } => Some(Verb::HashIncrement),
            ClientRequest::HashSet { .. } => Some(Verb::HashSet),
            ClientRequest::ListFetch { .. } => Some(Verb::ListFetch),
            ClientRequest::ListLength { .. } => Some(Verb::ListLength),
            ClientRequest::ListPopBack { .. } => Some(Verb::ListPopBack),
            ClientRequest::ListPopFront { .. } => Some(Verb::ListPopFront),
            ClientRequest::ListPushBack { .. } => Some(Verb::ListPushBack),
            ClientRequest::ListPushFront { .. } => Some(Verb::ListPushFront),
            ClientRequest::ListRange { .. } => Some(Verb::ListRange),
            ClientRequest::ListRemove { .. } => Some(Verb::ListRemove),
            ClientRequest::ListStore { .. } => Some(Verb::ListStore),
            ClientRequest::MultiGet { .. } => Some(Verb::MultiGet),
            ClientRequest::Reconnect => Some(Verb::Reconnect),
            ClientRequest::Replace { .. } => None,
            ClientRequest::Put(_) => Some(Verb::Put),
            ClientRequest::SetAdd { .. } => Some(Verb::SetAdd),
            ClientRequest::SetMembers { .. } => Some(Verb::SetMembers),
            ClientRequest::SetRemove { .. } => Some(Verb::SetRemove),
            ClientRequest::SortedSetAdd { .. } => Some(Verb::SortedSetAdd),
            ClientRequest::SortedSetMembers { .. } => Some(Verb::SortedSetMembers),
            ClientRequest::SortedSetIncrement { .. } => Some(Verb::SortedSetIncrement),
            ClientRequest::SortedSetRank { .. } => Some(Verb::SortedSetRank),
            ClientRequest::SortedSetRemove { .. } => Some(Verb::SortedSetRemove),
            ClientRequest::SortedSetScore { .. } => Some(Verb::SortedSetScore),
            ClientRequest::Ping => Some(Verb::Ping),
            ClientRequest::Publish { .. } => Some(Verb::Publish),
        }
    }
}

impl ClientWorkItem {
    /// What a driver accounts this item as. A request to reconnect counts as
    /// a reconnect, whichever way it is wrapped.
    pub open spec fn spec_kind(&self) -> WorkKind {
        match self {
            ClientWorkItem::Reconnect => WorkKind::Reconnect,
            ClientWorkItem::Request { request, sequence } => match request.spec_verb() {
                Some(Verb::Reconnect) => WorkKind::Reconnect,
                Some(verb) => WorkKind::Command(verb),
                None => WorkKind::Other,
            },
        }
    }

    /// What a driver accounts this item as.
    pub fn kind(&self) -> (out: WorkKind)
        ensures
            out == self.spec_kind(),
    {
        match self {
            ClientWorkItem::Reconnect => WorkKind::Reconnect,
            ClientWorkItem::Request { request, sequence } => match request.verb() {
                Some(Verb::Reconnect) => WorkKind::Reconnect,
                Some(verb) => WorkKind::Command(verb),
                None => WorkKind::Other,
            },
        }
    }
}


/// The amount of every generated increment.
pub const INCREMENT: i64 = 1;

/// The bits of the double `1.0`, the score of every generated member.
pub const UNIT_SCORE: u64 = 0x3FF0_0000_0000_0000;

/// The number of keys, fields, elements or members in a batched request:
/// the keyspace's batch size, and one if none is configured.
pub open spec fn batch_count(k: &Keyspace) -> nat {
    if k.batch_size == 0 {
        1
    } else {
        k.batch_size as nat
    }
}

/// True when `list` holds `count` inner keys of the keyspace.
pub open spec fn inner_keys_fit(k: &Keyspace, list: Seq<Vec<u8>>, count: nat) -> bool {
    &&& list.len() == count
    &&& forall|i: int| 0 <= i < list.len() ==> drawn_from(k.inner_keys@, (#[trigger] list[i])@)
}

/// True when `list` holds `count` keys of the keyspace.
pub open spec fn keys_fit(k: &Keyspace, list: Seq<Vec<u8>>, count: nat) -> bool {
    &&& list.len() == count
    &&& forall|i: int| 0 <= i < list.len() ==> k.admits_key((#[trigger] list[i])@)
}

/// True when the keyspace has what the command needs: an inner key if it
/// addresses one, a value if it writes.
pub open spec fn can_build(k: &Keyspace, verb: Verb) -> bool {
    &&& verb.addresses_inner_keys() ==> k.inner_keys.len() > 0
    &&& verb.writes() ==> k.values.len() > 0
}

/// Text whose characters are the given bytes.
pub open spec fn ascii_text(bytes: Seq<u8>) -> Seq<char> {
    bytes.map_values(|b: u8| b as char)
}

/// True when every byte is below 128.
pub open spec fn is_ascii(bytes: Seq<u8>) -> bool {
    forall|i: int| 0 <= i < bytes.len() ==> (#[trigger] bytes[i]) < 128
}

/// Turns bytes into text with `String::from_utf8_lossy`.
///
/// Trusted: ASCII bytes become the characters of the same codes. Nothing is
/// claimed for other input.
#[verifier::external_body]
pub(crate) fn text_of(bytes: &Vec<u8>) -> (out: String)
    ensures
        is_ascii(bytes@) ==> out@ == ascii_text(bytes@),
{
    String::from_utf8_lossy(bytes).into_owned()
}

/// True when `request` is what the command `verb` asks for in the keyspace
/// `k`: the variant of the command, a key of the keyspace, and inner keys
/// and values drawn from its descriptors.
pub open spec fn request_fits(k: &Keyspace, verb: Verb, request: ClientRequest) -> bool {
    match (verb, request) {
        (Verb::Get, ClientRequest::Get(r)) => k.admits_key(r.key@),
        (Verb::Put, ClientRequest::Put(r)) => k.admits_key(r.key@) && drawn_from(
            k.values@,
            r.value@,
        ),
        (Verb::Delete, ClientRequest::Delete(r)) => k.admits_key(r.key@),
        (Verb::HashGet, ClientRequest::HashGet { key, fields }) => k.admits_key(key@)
            && inner_keys_fit(k, fields@, 1),
        (Verb::HashMultiGet, ClientRequest::HashGet { key, fields }) => k.admits_key(key@)
            && inner_keys_fit(k, fields@, batch_count(k)),
        (Verb::HashSet, ClientRequest::HashSet { key, data }) => {
            &&& k.admits_key(key@)
            &&& data.len() == 1
            &&& drawn_from(k.inner_keys@, data@[0].0@)
            &&& drawn_from(k.values@, data@[0].1@)
        },
        (Verb::HashDelete, ClientRequest::HashDelete(r)) => k.admits_key(r.key@)
            && inner_keys_fit(k, r.fields@, 1),
        (Verb::HashExists, ClientRequest::HashExists(r)) => k.admits_key(r.key@) && drawn_from(
            k.inner_keys@,
            r.field@,
        ),
        (Verb::HashIncrement, ClientRequest::HashIncrement { key, field, amount }) => {
            &&& k.admits_key(key@)
            &&& drawn_from(k.inner_keys@, field@)
            &&& amount == INCREMENT
        },
        (Verb::ListPushFront, ClientRequest::ListPushFront { key, elements, truncate }) => {
            &&& k.admits_key(key@)
            &&& inner_keys_fit(k, elements@, batch_count(k))
            &&& truncate is None
        },
        (Verb::ListPushBack, ClientRequest::ListPushBack { key, elements, truncate }) => {
            &&& k.admits_key(key@)
            &&& inner_keys_fit(k, elements@, batch_count(k))
            &&& truncate is None
        },
        (Verb::ListPopFront, ClientRequest::ListPopFront { key }) => k.admits_key(key@),
        (Verb::ListPopBack, ClientRequest::ListPopBack { key }) => k.admits_key(key@),
        (Verb::ListRange, ClientRequest::ListRange { key, start, stop }) => k.admits_key(key@)
            && start == 0 && stop == -1,
        (Verb::ListFetch, ClientRequest::ListFetch { key }) => k.admits_key(key@),
        (Verb::ListLength, ClientRequest::ListLength { key }) => k.admits_key(key@),
        (Verb::ListRemove, ClientRequest::ListRemove { key, element }) => k.admits_key(key@)
            && drawn_from(k.inner_keys@, element@),
        (Verb::ListStore, ClientRequest::ListStore { key, elements }) => k.admits_key(key@)
            && inner_keys_fit(k, elements@, batch_count(k)),
        (Verb::MultiGet, ClientRequest::MultiGet { keys }) => keys_fit(k, keys@, batch_count(k)),
        (Verb::SetAdd, ClientRequest::SetAdd { key, members }) => k.admits_key(key@)
            && inner_keys_fit(k, members@, batch_count(k)),
        (Verb::SetMembers, ClientRequest::SetMembers { key }) => k.admits_key(key@),
        (Verb::SetRemove, ClientRequest::SetRemove { key, members }) => k.admits_key(key@)
            && inner_keys_fit(k, members@, batch_count(k)),
        (Verb::SortedSetAdd, ClientRequest::SortedSetAdd { key, members }) => {
            &&& k.admits_key(key@)
            &&& members.len() == batch_count(k)
            &&& forall|i: int|
                0 <= i < members.len() ==> drawn_from(k.inner_keys@, (#[trigger] members@[i]).0@)
                    && members@[i].1 == UNIT_SCORE
        },
        (Verb::SortedSetMembers, ClientRequest::SortedSetMembers { key }) => k.admits_key(key@),
        (Verb::SortedSetIncrement, ClientRequest::SortedSetIncrement { key, member, amount }) => {
            &&& k.admits_key(key@)
            &&& drawn_from(k.inner_keys@, member@)
            &&& amount == UNIT_SCORE
        },
        (Verb::SortedSetRank, ClientRequest::SortedSetRank { key, member }) => k.admits_key(key@)
            && drawn_from(k.inner_keys@, member@),
        (Verb::SortedSetRemove, ClientRequest::SortedSetRemove { key, members }) => k.admits_key(
            key@,
        ) && inner_keys_fit(k, members@, batch_count(k)),
        (Verb::SortedSetScore, ClientRequest::SortedSetScore { key, members }) => k.admits_key(
            key@,
        ) && inner_keys_fit(k, members@, batch_count(k)),
        (Verb::Ping, ClientRequest::Ping) => true,
        (Verb::Publish, ClientRequest::Publish { topic, message }) => {
            &&& drawn_from(k.values@, message@)
            &&& exists|key: Seq<u8>|
                k.admits_key(key) && (is_ascii(key) ==> topic@ == ascii_text(key))
        },
        (Verb::Reconnect, ClientRequest::Reconnect) => true,
        _ => false,
    }
}

/// Draws `count` inner keys, or `None` when the keyspace has none; then no
/// draw is made.
pub fn inner_key_list(k: &Keyspace, rng: &mut rand_xoshiro::Xoshiro256Plus, count: usize) -> (out:
    Option<Vec<Vec<u8>>>)
    requires
        k.wf(),
    ensures
        out is None <==> k.inner_keys.len() == 0,
        out is None ==> *final(rng) == *old(rng),
        out matches Some(list) ==> inner_keys_fit(k, list@, count as nat),
{
    let mut list: Vec<Vec<u8>> = Vec::new();
    let mut i: usize = 0;
    while i < count
        invariant
            k.wf(),
            i <= count,
            list.len() == i,
            k.inner_keys.len() > 0 || i == 0,
            k.inner_keys.len() == 0 ==> *rng == *old(rng),
            forall|j: int|
                0 <= j < list.len() ==> drawn_from(k.inner_keys@, (#[trigger] list@[j])@),
        decreases count - i,
    {
        match k.generate_inner_key(rng) {
            Some(bytes) => {
                list.push(bytes);
            },
            None => {
                return None;
            },
        }
        i = i + 1;
    }
    if k.inner_keys.len() == 0 {
        None
    } else {
        Some(list)
    }
}

/// Draws `count` keys.
pub fn key_list(k: &Keyspace, rng: &mut rand_xoshiro::Xoshiro256Plus, count: usize) -> (out: Vec<
    Vec<u8>,
>)
    requires
        k.wf(),
    ensures
        keys_fit(k, out@, count as nat),
{
    let mut list: Vec<Vec<u8>> = Vec::new();
    let mut i: usize = 0;
    while i < count
        invariant
            k.wf(),
            i <= count,
            list.len() == i,
            forall|j: int| 0 <= j < list.len() ==> k.admits_key((#[trigger] list@[j])@),
        decreases count - i,
    {
        let key = k.generate_key(rng);
        list.push(key);
        i = i + 1;
    }
    list
}

/// Computes [`batch_count`].
pub fn batch_len(k: &Keyspace) -> (out: usize)
    ensures
        out == batch_count(k),
{
    if k.batch_size == 0 {
        1
    } else {
        k.batch_size
    }
}


/// Draws the request that the command `verb` asks for in the keyspace `k`,
/// or `None` when the keyspace lacks an inner key or a value that the
/// command needs; then no draw is made.
pub fn build_request(k: &Keyspace, verb: Verb, rng: &mut rand_xoshiro::Xoshiro256Plus) -> (out:
    Option<ClientRequest>)
    requires
        k.wf(),
    ensures
        out is Some <==> can_build(k, verb),
        out is None ==> *final(rng) == *old(rng),
        out matches Some(request) ==> request_fits(k, verb, request),
{
    if verb.needs_inner_key() && k.inner_keys.len() == 0 {
        return None;
    }
    if verb.is_write() && k.values.len() == 0 {
        return None;
    }
    let request = match verb {
        Verb::Ping => ClientRequest::Ping,
        Verb::Reconnect => ClientRequest::Reconnect,
        Verb::MultiGet => ClientRequest::MultiGet { keys: key_list(k, rng, batch_len(k)) },
        Verb::Get => ClientRequest::Get(Get { key: k.generate_key(rng) }),
        Verb::Delete => ClientRequest::Delete(Delete { key: k.generate_key(rng) }),
        Verb::ListPopFront => ClientRequest::ListPopFront { key: k.generate_key(rng) },
        Verb::ListPopBack => ClientRequest::ListPopBack { key: k.generate_key(rng) },
        Verb::ListRange => ClientRequest::ListRange {
            key: k.generate_key(rng),
            start: 0,
            stop: -1,
        },
        Verb::ListFetch => ClientRequest::ListFetch { key: k.generate_key(rng) },
        Verb::ListLength => ClientRequest::ListLength { key: k.generate_key(rng) },
        Verb::SetMembers => ClientRequest::SetMembers { key: k.generate_key(rng) },
        Verb::SortedSetMembers => ClientRequest::SortedSetMembers { key: k.generate_key(rng) },
        Verb::Put => {
            let key = k.generate_key(rng);
            let value = k.generate_value(rng).unwrap();
            ClientRequest::Put(Put { key, value })
        },
        Verb::Publish => {
            let key = k.generate_key(rng);
            let topic = text_of(&key);
            let message = k.generate_value(rng).unwrap();
            ClientRequest::Publish { topic, message }
        },
        Verb::HashSet => {
            let key = k.generate_key(rng);
            let field = k.generate_inner_key(rng).unwrap();
            let value = k.generate_value(rng).unwrap();
            let mut data: Vec<(Vec<u8>, Vec<u8>)> = Vec::new();
            data.push((field, value));
            ClientRequest::HashSet { key, data }
        },
        Verb::HashGet => {
            let key = k.generate_key(rng);
            let fields = inner_key_list(k, rng, 1).unwrap();
            ClientRequest::HashGet { key, fields }
        },
        Verb::HashMultiGet => {
            let key = k.generate_key(rng);
            let fields = inner_key_list(k, rng, batch_len(k)).unwrap();
            ClientRequest::HashGet { key, fields }
        },
        Verb::HashDelete => {
            let key = k.generate_key(rng);
            let fields = inner_key_list(k, rng, 1).unwrap();
            ClientRequest::HashDelete(HashDelete { key, fields })
        },
        Verb::HashExists => {
            let key = k.generate_key(rng);
            let field = k.generate_inner_key(rng).unwrap();
            ClientRequest::HashExists(HashExists { key, field })
        },
        Verb::HashIncrement => {
            let key = k.generate_key(rng);
            let field = k.generate_inner_key(rng).unwrap();
            ClientRequest::HashIncrement { key, field, amount: INCREMENT }
        },
        Verb::ListPushFront => {
            let key = k.generate_key(rng);
            let elements = inner_key_list(k, rng, batch_len(k)).unwrap();
            ClientRequest::ListPushFront { key, elements, truncate: None }
        },
        Verb::ListPushBack => {
            let key = k.generate_key(rng);
            let elements = inner_key_list(k, rng, batch_len(k)).unwrap();
            ClientRequest::ListPushBack { key, elements, truncate: None }
        },
        Verb::ListRemove => {
            let key = k.generate_key(rng);
            let element = k.generate_inner_key(rng).unwrap();
            ClientRequest::ListRemove { key, element }
        },
        Verb::ListStore => {
            let key = k.generate_key(rng);
            let elements = inner_key_list(k, rng, batch_len(k)).unwrap();
            ClientRequest::ListStore { key, elements }
        },
        Verb::SetAdd => {
            let key = k.generate_key(rng);
            let members = inner_key_list(k, rng, batch_len(k)).unwrap();
            ClientRequest::SetAdd { key, members }
        },
        Verb::SetRemove => {
            let key = k.generate_key(rng);
            let members = inner_key_list(k, rng, batch_len(k)).unwrap();
            ClientRequest::SetRemove { key, members }
        },
        Verb::SortedSetAdd => {
            let key = k.generate_key(rng);
            let members = scored_members(k, rng, batch_len(k));
            ClientRequest::SortedSetAdd { key, members }
        },
        Verb::SortedSetIncrement => {
            let key = k.generate_key(rng);
            let member = k.generate_inner_key(rng).unwrap();
            ClientRequest::SortedSetIncrement { key, member, amount: UNIT_SCORE }
        },
        Verb::SortedSetRank => {
            let key = k.generate_key(rng);
            let member = k.generate_inner_key(rng).unwrap();
            ClientRequest::SortedSetRank { key, member }
        },
        Verb::SortedSetRemove => {
            let key = k.generate_key(rng);
            let members = inner_key_list(k, rng, batch_len(k)).unwrap();
            ClientRequest::SortedSetRemove { key, members }
        },
        Verb::SortedSetScore => {
            let key = k.generate_key(rng);
            let members = inner_key_list(k, rng, batch_len(k)).unwrap();
            ClientRequest::SortedSetScore { key, members }
        },
    };
    Some(request)
}

/// Draws `count` members with the unit score.
fn scored_members(k: &Keyspace, rng: &mut rand_xoshiro::Xoshiro256Plus, count: usize) -> (out: Vec<
    (Vec<u8>, u64),
>)
    requires
        k.wf(),
        k.inner_keys.len() > 0,
    ensures
        out.len() == count,
        forall|i: int|
            0 <= i < out.len() ==> drawn_from(k.inner_keys@, (#[trigger] out@[i]).0@) && out@[i].1
                == UNIT_SCORE,
{
    let mut list: Vec<(Vec<u8>, u64)> = Vec::new();
    let mut i: usize = 0;
    while i < count
        invariant
            k.wf(),
            k.inner_keys.len() > 0,
            i <= count,
            list.len() == i,
            forall|j: int|
                0 <= j < list.len() ==> drawn_from(k.inner_keys@, (#[trigger] list@[j]).0@)
                    && list@[j].1 == UNIT_SCORE,
        decreases count - i,
    {
        let member = k.generate_inner_key(rng).unwrap();
        list.push((member, UNIT_SCORE));
        i = i + 1;
    }
    list
}

} // verus!
