//! The servers that a player has saved, and what pinging them tells.

use crate::components::{component_steps, component_text, component_tree};
use crate::decode::{decode_image, decoded_image};
use crate::strings::{has_prefix, same_text, starts_with};
use crate::text::{checked_text_spans, flattened, showable, span_views, TextSpan};
use azalea_chat::FormattedText;
use vstd::prelude::*;

verus! {

/// The value of a field of a saved entry.
pub enum FieldValue {
    Null,
    Integer(i64),
    Text(String),
    /// Anything else, as it was written.
    Json(String),
}

/// A field's value, as values.
pub enum ValueView {
    Null,
    Integer(i64),
    Text(Seq<char>),
    Json(Seq<char>),
}

impl View for FieldValue {
    type V = ValueView;

    open spec fn view(&self) -> ValueView {
        match self {
            FieldValue::Null => ValueView::Null,
            FieldValue::Integer(i) => ValueView::Integer(*i),
            FieldValue::Text(s) => ValueView::Text(s@),
            FieldValue::Json(s) => ValueView::Json(s@),
        }
    }
}

/// A field of a saved entry.
pub struct Field {
    pub key: String,
    pub value: FieldValue,
}

/// A field, as values.
pub struct FieldView {
    pub key: Seq<char>,
    pub value: ValueView,
}

impl View for Field {
    type V = FieldView;

    open spec fn view(&self) -> FieldView {
        FieldView { key: self.key@, value: self.value@ }
    }
}

/// A saved server.
pub struct ServerEntry {
    pub name: String,
    pub address: String,
    /// The protocol that its last answered ping told.
    pub protocol: Option<i32>,
    /// The fields that other tools own, which are kept as they are.
    pub extra: Vec<Field>,
}

/// A saved server, as values.
pub struct EntryView {
    pub name: Seq<char>,
    pub address: Seq<char>,
    pub protocol: Option<i32>,
    pub extra: Seq<FieldView>,
}

/// The views of some fields.
pub open spec fn field_views(fields: Seq<Field>) -> Seq<FieldView> {
    Seq::new(fields.len(), |i: int| fields[i]@)
}

impl View for ServerEntry {
    type V = EntryView;

    open spec fn view(&self) -> EntryView {
        EntryView {
            name: self.name@,
            address: self.address@,
            protocol: self.protocol,
            extra: field_views(self.extra@),
        }
    }
}

/// The views of some entries.
pub open spec fn entry_views(entries: Seq<ServerEntry>) -> Seq<EntryView> {
    Seq::new(entries.len(), |i: int| entries[i]@)
}

/// Whether a key names a field that an entry models itself.
pub open spec fn modelled(key: Seq<char>) -> bool {
    key == "name"@ || key == "address"@ || key == "protocol"@
}

/// The fields of the first `n` that other tools own.
pub open spec fn foreign(fields: Seq<FieldView>, n: nat) -> Seq<FieldView>
    decreases n,
{
    if n == 0 {
        Seq::empty()
    } else if modelled(fields[n - 1].key) {
        foreign(fields, (n - 1) as nat)
    } else {
        foreign(fields, (n - 1) as nat).push(fields[n - 1])
    }
}

/// Whether a field under `key` holds `value`.
pub open spec fn given(fields: Seq<FieldView>, key: Seq<char>, value: ValueView) -> bool {
    exists|i: int|
        0 <= i < fields.len() && (#[trigger] fields[i]).key == key && fields[i].value == value
}

/// Whether there is no field under `key`.
pub open spec fn absent(fields: Seq<FieldView>, key: Seq<char>) -> bool {
    forall|i: int| 0 <= i < fields.len() ==> (#[trigger] fields[i]).key != key
}

/// Whether no key occurs twice.
pub open spec fn keys_distinct(fields: Seq<FieldView>) -> bool {
    forall|i: int, j: int|
        0 <= i < j < fields.len() ==> (#[trigger] fields[i]).key != (#[trigger] fields[j]).key
}

/// Whether `entry` is what some fields describe.
pub open spec fn describes(fields: Seq<FieldView>, entry: EntryView) -> bool {
    &&& given(fields, "name"@, ValueView::Text(entry.name))
    &&& given(fields, "address"@, ValueView::Text(entry.address))
    &&& match entry.protocol {
        Some(p) => given(fields, "protocol"@, ValueView::Integer(p as i64)),
        None => absent(fields, "protocol"@) || given(fields, "protocol"@, ValueView::Null),
    }
    &&& entry.extra == foreign(fields, fields.len())
}

/// The fields of an entry: its own first, the protocol only where it is known,
/// then those of other tools.
pub open spec fn fields_of(entry: EntryView) -> Seq<FieldView> {
    seq![
        FieldView { key: "name"@, value: ValueView::Text(entry.name) },
        FieldView { key: "address"@, value: ValueView::Text(entry.address) },
    ] + (match entry.protocol {
        Some(p) => seq![FieldView { key: "protocol"@, value: ValueView::Integer(p as i64) }],
        None => Seq::empty(),
    }) + entry.extra
}

/// A copy of a field.
fn copy_field(field: &Field) -> (copy: Field)
    ensures
        copy@ == field@,
{
    let value = match &field.value {
        FieldValue::Null => FieldValue::Null,
        FieldValue::Integer(i) => FieldValue::Integer(*i),
        FieldValue::Text(s) => FieldValue::Text(s.clone()),
        FieldValue::Json(s) => FieldValue::Json(s.clone()),
    };
    Field { key: field.key.clone(), value }
}

/// The place of the field under `key`.
fn find_field(fields: &Vec<Field>, key: &str) -> (found: Option<usize>)
    ensures
        match found {
            Some(i) => i < fields@.len() && fields@[i as int].key@ == key@,
            None => absent(field_views(fields@), key@),
        },
{
    let mut i: usize = 0;
    while i < fields.len()
        invariant
            i <= fields@.len(),
            forall|k: int| 0 <= k < i ==> (#[trigger] fields@[k]).key@ != key@,
        decreases fields@.len() - i,
    {
        if same_text(fields[i].key.as_str(), key) {
            return Some(i);
        }
        i = i + 1;
    }
    assert forall|k: int| 0 <= k < field_views(fields@).len() implies (#[trigger] field_views(
        fields@,
    )[k]).key != key@ by {
        assert(fields@[k].key@ != key@);
    }
    None
}

/// The text of the field under `key`.
fn text_field(fields: &Vec<Field>, key: &str) -> (text: Option<String>)
    requires
        keys_distinct(field_views(fields@)),
    ensures
        match text {
            Some(t) => given(field_views(fields@), key@, ValueView::Text(t@)),
            None => forall|t: Seq<char>| !given(field_views(fields@), key@, ValueView::Text(t)),
        },
{
    let ghost views = field_views(fields@);
    match find_field(fields, key) {
        None => None,
        Some(i) => {
            assert(views[i as int] == fields@[i as int]@);
            match &fields[i].value {
                FieldValue::Text(t) => Some(t.clone()),
                _ => None,
            }
        },
    }
}

impl ServerEntry {
    /// The entry that some fields describe; none where the name or the address
    /// is missing or no text, or where the protocol is neither null nor a
    /// number of 32 bits.
    pub fn from_fields(fields: &Vec<Field>) -> (entry: Option<ServerEntry>)
        requires
            keys_distinct(field_views(fields@)),
        ensures
            match entry {
                Some(e) => describes(field_views(fields@), e@),
                None => forall|e: EntryView| !describes(field_views(fields@), e),
            },
    {
        let ghost views = field_views(fields@);
        let name = match text_field(fields, "name") {
            Some(t) => t,
            None => {
                return None;
            },
        };
        let address = match text_field(fields, "address") {
            Some(t) => t,
            None => {
                return None;
            },
        };
        let protocol: Option<i32> = match find_field(fields, "protocol") {
            None => None,
            Some(i) => {
                assert(views[i as int] == fields@[i as int]@);
                match &fields[i].value {
                    FieldValue::Null => None,
                    FieldValue::Integer(p) => {
                        if i32::MIN as i64 <= *p && *p <= i32::MAX as i64 {
                            Some(*p as i32)
                        } else {
                            return None;
                        }
                    },
                    _ => {
                        return None;
                    },
                }
            },
        };
        let mut extra: Vec<Field> = Vec::new();
        let mut i: usize = 0;
        assert(field_views(extra@) =~= foreign(views, 0));
        while i < fields.len()
            invariant
                i <= fields@.len(),
                views == field_views(fields@),
                field_views(extra@) == foreign(views, i as nat),
            decreases fields@.len() - i,
        {
            let ghost before = extra@;
            let key = fields[i].key.as_str();
            assert(views[i as int] == fields@[i as int]@);
            if !same_text(key, "name") && !same_text(key, "address") && !same_text(
                key,
                "protocol",
            ) {
                let field = copy_field(&fields[i]);
                extra.push(field);
                assert(field_views(extra@) =~= field_views(before).push(views[i as int]));
            }
            i = i + 1;
        }
        Some(ServerEntry { name, address, protocol, extra })
    }

    /// The fields that are saved for this entry.
    pub fn to_fields(&self) -> (fields: Vec<Field>)
        ensures
            field_views(fields@) == fields_of(self@),
    {
        let mut fields: Vec<Field> = Vec::new();
        fields.push(Field { key: "name".to_owned(), value: FieldValue::Text(self.name.clone()) });
        fields.push(
            Field { key: "address".to_owned(), value: FieldValue::Text(self.address.clone()) },
        );
        if let Some(p) = self.protocol {
            fields.push(
                Field { key: "protocol".to_owned(), value: FieldValue::Integer(p as i64) },
            );
        }
        let ghost own = field_views(fields@);
        let mut i: usize = 0;
        assert(field_views(fields@) =~= own + self@.extra.take(0));
        while i < self.extra.len()
            invariant
                i <= self.extra@.len(),
                field_views(fields@) == own + self@.extra.take(i as int),
            decreases self.extra@.len() - i,
        {
            let ghost before = fields@;
            let field = copy_field(&self.extra[i]);
            fields.push(field);
            i = i + 1;
            assert(field_views(fields@) =~= field_views(before).push(field@));
            assert(field_views(fields@) =~= own + self@.extra.take(i as int));
        }
        assert(self@.extra.take(self@.extra.len() as int) =~= self@.extra);
        assert(field_views(fields@) =~= fields_of(self@));
        fields
    }

    /// An entry as a player adds it: without a protocol and without fields of
    /// other tools.
    pub fn named(name: String, address: String) -> (entry: ServerEntry)
        ensures
            entry@ == fresh_entry(name@, address@),
    {
        let entry = ServerEntry { name, address, protocol: None, extra: Vec::new() };
        assert(entry@.extra =~= Seq::<FieldView>::empty());
        entry
    }
}

/// An entry as a player adds it.
pub open spec fn fresh_entry(name: Seq<char>, address: Seq<char>) -> EntryView {
    EntryView { name, address, protocol: None, extra: Seq::empty() }
}

proof fn lemma_foreign_members(fields: Seq<FieldView>, n: nat, x: FieldView)
    requires
        n <= fields.len(),
    ensures
        foreign(fields, n).contains(x) <==> !modelled(x.key) && fields.take(n as int).contains(x),
    decreases n,
{
    if n > 0 {
        let m = (n - 1) as nat;
        lemma_foreign_members(fields, m, x);
        let last = fields[n - 1];
        assert(fields.take(n as int) =~= fields.take(m as int).push(last));
        let (a, b) = (fields.take(m as int), foreign(fields, m));
        assert(a.push(last).contains(x) <==> a.contains(x) || x == last) by {
            if a.contains(x) {
                let i = choose|i: int| 0 <= i < a.len() && a[i] == x;
                assert(a.push(last)[i] == x);
            }
            if x == last {
                assert(a.push(last)[a.len() as int] == x);
            }
        }
        assert(b.push(last).contains(x) <==> b.contains(x) || x == last) by {
            if b.contains(x) {
                let i = choose|i: int| 0 <= i < b.len() && b[i] == x;
                assert(b.push(last)[i] == x);
            }
            if x == last {
                assert(b.push(last)[b.len() as int] == x);
            }
        }
    }
}

/// Saving an entry that was read keeps every field: it writes those that it
/// read, unknown ones included, and no others. Only a protocol that was null
/// is left out.
pub proof fn saving_keeps_every_field(fields: Seq<FieldView>, entry: EntryView, x: FieldView)
    requires
        keys_distinct(fields),
        describes(fields, entry),
    ensures
        fields_of(entry).contains(x) <==> fields.contains(x) && !(x.key == "protocol"@ && x.value
            == ValueView::Null),
{
    let n = fields.len();
    lemma_foreign_members(fields, n, x);
    assert(fields.take(n as int) =~= fields);
    lemma_literals_differ();
    let own = seq![
        FieldView { key: "name"@, value: ValueView::Text(entry.name) },
        FieldView { key: "address"@, value: ValueView::Text(entry.address) },
    ];
    let middle: Seq<FieldView> = match entry.protocol {
        Some(p) => seq![FieldView { key: "protocol"@, value: ValueView::Integer(p as i64) }],
        None => Seq::empty(),
    };
    let all = fields_of(entry);
    assert(all =~= own + middle + entry.extra);
    assert(all.contains(x) <==> own.contains(x) || middle.contains(x) || entry.extra.contains(
        x,
    )) by {
        if own.contains(x) {
            let i = choose|i: int| 0 <= i < own.len() && own[i] == x;
            assert(all[i] == x);
        }
        if middle.contains(x) {
            let i = choose|i: int| 0 <= i < middle.len() && middle[i] == x;
            assert(all[own.len() + i] == x);
        }
        if entry.extra.contains(x) {
            let i = choose|i: int| 0 <= i < entry.extra.len() && entry.extra[i] == x;
            assert(all[own.len() + middle.len() + i] == x);
        }
    }
    assert(own.contains(x) <==> x == own[0] || x == own[1]);
    assert(entry.protocol matches Some(p) ==> (middle.contains(x) <==> x == middle[0]));
    if fields.contains(x) {
        let k = choose|k: int| 0 <= k < fields.len() && fields[k] == x;
        let a = choose|i: int|
            0 <= i < fields.len() && (#[trigger] fields[i]).key == "name"@ && fields[i].value
                == ValueView::Text(entry.name);
        let b = choose|i: int|
            0 <= i < fields.len() && (#[trigger] fields[i]).key == "address"@ && fields[i].value
                == ValueView::Text(entry.address);
        assert(x.key == "name"@ ==> k == a);
        assert(x.key == "address"@ ==> k == b);
        if let Some(p) = entry.protocol {
            let c = choose|i: int|
                0 <= i < fields.len() && (#[trigger] fields[i]).key == "protocol"@
                    && fields[i].value == ValueView::Integer(p as i64);
            assert(x.key == "protocol"@ ==> k == c);
        } else if x.key == "protocol"@ {
            assert(!absent(fields, "protocol"@));
            let c = choose|i: int|
                0 <= i < fields.len() && (#[trigger] fields[i]).key == "protocol"@
                    && fields[i].value == ValueView::Null;
            assert(k == c);
        }
    }
}

proof fn lemma_literals_differ()
    ensures
        "name"@ != "address"@,
        "name"@ != "protocol"@,
        "address"@ != "protocol"@,
{
    reveal_strlit("name");
    reveal_strlit("address");
    reveal_strlit("protocol");
    assert("name"@.len() == 4 && "address"@.len() == 7 && "protocol"@.len() == 8);
}

proof fn lemma_foreign_of_own(entry: EntryView, n: nat)
    requires
        n <= fields_of(entry).len(),
        forall|i: int| 0 <= i < entry.extra.len() ==> !modelled((#[trigger] entry.extra[i]).key),
    ensures
        ({
            let own = (fields_of(entry).len() - entry.extra.len()) as int;
            foreign(fields_of(entry), n) == if n <= own {
                Seq::empty()
            } else {
                entry.extra.take(n - own)
            }
        }),
    decreases n,
{
    let all = fields_of(entry);
    let own = (all.len() - entry.extra.len()) as int;
    if n > 0 {
        lemma_foreign_of_own(entry, (n - 1) as nat);
        if n <= own {
            assert(modelled(all[n - 1].key));
        } else {
            let i = n - 1 - own;
            assert(all[n - 1] == entry.extra[i]);
            assert(!modelled(entry.extra[i].key));
            assert(entry.extra.take(i + 1) =~= entry.extra.take(i).push(entry.extra[i]));
            if n == own + 1 {
                assert(entry.extra.take(0) =~= Seq::<FieldView>::empty());
            }
        }
    }
}

/// Reading what was saved gives back the entry, where no other tool's field
/// takes a name of the entry's own.
pub proof fn reading_gives_back_what_was_saved(entry: EntryView)
    requires
        forall|i: int| 0 <= i < entry.extra.len() ==> !modelled((#[trigger] entry.extra[i]).key),
    ensures
        describes(fields_of(entry), entry),
{
    let all = fields_of(entry);
    lemma_literals_differ();
    lemma_foreign_of_own(entry, all.len());
    assert(entry.extra.take(entry.extra.len() as int) =~= entry.extra);
    let own = (all.len() - entry.extra.len()) as int;
    if own == all.len() {
        assert(entry.extra =~= Seq::<FieldView>::empty());
    }
    assert(all[0].key == "name"@ && all[1].key == "address"@);
    if entry.protocol is Some {
        assert(all[2].key == "protocol"@);
    } else {
        assert forall|i: int| 0 <= i < all.len() implies (#[trigger] all[i]).key != "protocol"@ by {
            if i >= 2 {
                assert(all[i] == entry.extra[i - 2]);
                assert(!modelled(entry.extra[i - 2].key));
            }
        }
    }
}

/// The saved servers.
pub struct ServerList {
    pub servers: Vec<ServerEntry>,
}

/// Some entries with two of them exchanged.
pub open spec fn exchanged<T>(entries: Seq<T>, a: int, b: int) -> Seq<T> {
    entries.update(a, entries[b]).update(b, entries[a])
}

impl View for ServerList {
    type V = Seq<EntryView>;

    open spec fn view(&self) -> Seq<EntryView> {
        entry_views(self.servers@)
    }
}

impl ServerList {
    /// Appends an entry.
    pub fn add(&mut self, entry: ServerEntry)
        ensures
            final(self)@ == old(self)@.push(entry@),
    {
        let ghost before = self@;
        self.servers.push(entry);
        assert(self@ =~= before.push(entry@));
    }

    /// Replaces the entry at `index`, if there is one. Returns whether the list
    /// changed and has to be saved.
    pub fn update(&mut self, index: usize, entry: ServerEntry) -> (changed: bool)
        ensures
            changed == (index < old(self)@.len()),
            final(self)@ == if index < old(self)@.len() {
                old(self)@.update(index as int, entry@)
            } else {
                old(self)@
            },
    {
        let ghost before = self@;
        if index < self.servers.len() {
            self.servers.set(index, entry);
            assert(self@ =~= before.update(index as int, entry@));
            true
        } else {
            false
        }
    }

    /// Exchanges two entries, if both exist. Returns whether the list has to be
    /// saved.
    pub fn swap(&mut self, a: usize, b: usize) -> (changed: bool)
        ensures
            changed == (a < old(self)@.len() && b < old(self)@.len()),
            final(self)@ == if a < old(self)@.len() && b < old(self)@.len() {
                exchanged(old(self)@, a as int, b as int)
            } else {
                old(self)@
            },
    {
        let ghost before = self@;
        if a < self.servers.len() && b < self.servers.len() {
            if a != b {
                let (low, high): (usize, usize) = if a < b { (a, b) } else { (b, a) };
                let ghost whole = self.servers@;
                let second = self.servers.remove(high);
                let first = self.servers.remove(low);
                self.servers.insert(low, second);
                self.servers.insert(high, first);
                assert(self.servers@ =~= exchanged(whole, a as int, b as int));
            }
            assert(self@ =~= exchanged(before, a as int, b as int));
            true
        } else {
            false
        }
    }

    /// Removes the entry at `index`, if there is one. Returns whether the list
    /// has to be saved.
    pub fn remove(&mut self, index: usize) -> (changed: bool)
        ensures
            changed == (index < old(self)@.len()),
            final(self)@ == if index < old(self)@.len() {
                old(self)@.remove(index as int)
            } else {
                old(self)@
            },
    {
        let ghost before = self@;
        if index < self.servers.len() {
            let removed = self.servers.remove(index);
            assert(self@ =~= before.remove(index as int));
            true
        } else {
            false
        }
    }
}

/// Exchanging two entries twice restores the list, and every exchange keeps
/// each entry as often as it was there.
pub proof fn swapping_twice_restores(entries: Seq<EntryView>, a: int, b: int)
    requires
        0 <= a < entries.len(),
        0 <= b < entries.len(),
    ensures
        exchanged(exchanged(entries, a, b), a, b) == entries,
        exchanged(entries, a, b).to_multiset() == entries.to_multiset(),
{
    assert(exchanged(exchanged(entries, a, b), a, b) =~= entries);
    vstd::seq_lib::to_multiset_update(entries, a, entries[b]);
    let half = entries.update(a, entries[b]);
    vstd::seq_lib::to_multiset_update(half, b, entries[a]);
    broadcast use vstd::seq_lib::group_to_multiset_ensures;

    assert(entries.to_multiset().count(entries[a]) > 0) by {
        assert(entries.contains(entries[a]));
    }
    assert(exchanged(entries, a, b).to_multiset() =~= entries.to_multiset());
}

/// How the client can speak to a pinged server.
#[derive(Clone, Copy, Debug, PartialEq, Eq, Structural)]
pub enum Compat {
    /// In the newest version, without translation.
    Native,
    /// In an older version, through translation.
    Translated,
    /// Not at all.
    Incompatible,
}

/// How the client speaks to a server of protocol `protocol`, where `latest` is
/// the newest and `joinable` says whether `protocol` can be translated.
pub open spec fn compat_with(protocol: i32, latest: i32, joinable: bool) -> Compat {
    if protocol == latest {
        Compat::Native
    } else if joinable {
        Compat::Translated
    } else {
        Compat::Incompatible
    }
}

impl Compat {
    /// How the client speaks to a server of protocol `protocol`.
    pub fn of(protocol: i32, latest: i32, joinable: bool) -> (compat: Compat)
        ensures
            compat == compat_with(protocol, latest, joinable),
    {
        if protocol == latest {
            Compat::Native
        } else if joinable {
            Compat::Translated
        } else {
            Compat::Incompatible
        }
    }
}

/// What is known of a server.
pub enum PingState {
    Pinging,
    Success {
        motd: Vec<TextSpan>,
        online: i32,
        max: i32,
        latency_ms: u64,
        version: String,
        protocol: i32,
        compat: Compat,
        favicon_rgba: Option<Vec<u8>>,
        player_names: Vec<String>,
    },
    Failed(String),
}

/// A server's answer to a status request.
pub struct StatusReply {
    pub description: FormattedText,
    pub version: String,
    pub protocol: i32,
    pub online: i32,
    pub max: i32,
    pub favicon: Option<String>,
    pub player_names: Vec<String>,
}

/// Why a ping failed, with what the failing part said.
pub enum PingError {
    InvalidAddress,
    Status(String),
    Request(String),
    Pong(String),
}

/// What a failed ping is reported as.
pub open spec fn ping_failure(address: Seq<char>, error: PingError) -> Seq<char> {
    match error {
        PingError::InvalidAddress => "Invalid address: "@ + address,
        PingError::Status(e) => address + ": "@ + e@,
        PingError::Request(e) => "Ping request failed: "@ + e@,
        PingError::Pong(e) => "Pong failed: "@ + e@,
    }
}

impl PingError {
    /// What the failure of a ping of `address` is reported as.
    pub fn message(&self, address: &String) -> (message: String)
        ensures
            message@ == ping_failure(address@, *self),
    {
        match self {
            PingError::InvalidAddress => "Invalid address: ".to_owned().concat(address.as_str()),
            PingError::Status(e) => address.clone().concat(": ").concat(e.as_str()),
            PingError::Request(e) => "Ping request failed: ".to_owned().concat(e.as_str()),
            PingError::Pong(e) => "Pong failed: ".to_owned().concat(e.as_str()),
        }
    }
}

/// Whether `state` is what a ping of `address` with the outcome `outcome` tells:
/// an answer with the latency of its pong, or a failure. An answer whose
/// description cannot be flattened tells nothing.
pub open spec fn tells(
    address: Seq<char>,
    outcome: Result<(StatusReply, u64), PingError>,
    latest: i32,
    joinable_reply: bool,
    state: Option<PingState>,
) -> bool {
    match outcome {
        Err(error) => state matches Some(PingState::Failed(message)) && message@ == ping_failure(
            address,
            error,
        ),
        Ok((reply, _)) if !showable(component_tree(reply.description)) => state is None,
        Ok((reply, latency)) => {
            &&& state matches Some(PingState::Success {
                motd,
                online,
                max,
                latency_ms,
                version,
                protocol,
                compat,
                favicon_rgba,
                player_names,
            })
            &&& span_views(motd@) == flattened(
                component_steps(component_tree(reply.description)),
                component_text(component_tree(reply.description)),
            )
            &&& online == reply.online
            &&& max == reply.max
            &&& latency_ms == latency
            &&& version@ == reply.version@
            &&& protocol == reply.protocol
            &&& compat == compat_with(reply.protocol, latest, joinable_reply)
            &&& match reply.favicon {
                Some(data) => is_favicon(data@, favicon_rgba),
                None => favicon_rgba is None,
            }
            &&& player_names@ == reply.player_names@
        },
    }
}

/// What a ping of `address` tells, given its outcome, the newest protocol, and
/// whether the protocol that was answered can be translated. Nothing where the
/// answer's description cannot be flattened: the server then stays as it is
/// known.
pub fn ping_server(
    address: &String,
    outcome: Result<(StatusReply, u64), PingError>,
    latest: i32,
    joinable: bool,
) -> (state: Option<PingState>)
    ensures
        tells(address@, outcome, latest, joinable, state),
{
    match outcome {
        Err(error) => Some(PingState::Failed(error.message(address))),
        Ok((reply, latency_ms)) => {
            let motd = match checked_text_spans(&reply.description) {
                Some(runs) => runs,
                None => {
                    return None;
                },
            };
            let compat = Compat::of(reply.protocol, latest, joinable);
            let favicon_rgba = match &reply.favicon {
                Some(data) => decode_favicon(data),
                None => None,
            };
            Some(PingState::Success {
                motd,
                online: reply.online,
                max: reply.max,
                latency_ms,
                version: reply.version,
                protocol: reply.protocol,
                compat,
                favicon_rgba,
                player_names: reply.player_names,
            })
        },
    }
}

/// What is known of the servers, by address. No address occurs twice.
pub struct PingResults {
    pub entries: Vec<(String, PingState)>,
}

impl View for PingResults {
    type V = Map<Seq<char>, PingState>;

    open spec fn view(&self) -> Map<Seq<char>, PingState> {
        Map::new(
            |key: Seq<char>|
                exists|i: int| 0 <= i < self.entries@.len() && (#[trigger] self.entries@[i]).0@ == key,
            |key: Seq<char>|
                self.entries@[choose|i: int|
                    0 <= i < self.entries@.len() && (#[trigger] self.entries@[i]).0@ == key].1,
        )
    }
}

impl PingResults {
    pub open spec fn wf(&self) -> bool {
        forall|i: int, j: int|
            0 <= i < j < self.entries@.len() ==> (#[trigger] self.entries@[i]).0@ != (
            #[trigger] self.entries@[j]).0@
    }

    proof fn lemma_at(&self, i: int)
        requires
            self.wf(),
            0 <= i < self.entries@.len(),
        ensures
            self@.contains_key(self.entries@[i].0@),
            self@[self.entries@[i].0@] == self.entries@[i].1,
    {
        let key = self.entries@[i].0@;
        let k = choose|k: int| 0 <= k < self.entries@.len() && (#[trigger] self.entries@[k]).0@ == key;
        assert(k == i);
    }

    /// Nothing known.
    pub fn new() -> (results: Self)
        ensures
            results.wf(),
            results@ == Map::<Seq<char>, PingState>::empty(),
    {
        let results = PingResults { entries: Vec::new() };
        assert(results@ =~= Map::empty());
        results
    }

    /// What is known of the server at `address`.
    pub fn get(&self, address: &str) -> (state: Option<&PingState>)
        requires
            self.wf(),
        ensures
            match state {
                Some(s) => self@.contains_key(address@) && self@[address@] == *s,
                None => !self@.contains_key(address@),
            },
    {
        let mut i: usize = 0;
        while i < self.entries.len()
            invariant
                self.wf(),
                i <= self.entries@.len(),
                forall|k: int| 0 <= k < i ==> (#[trigger] self.entries@[k]).0@ != address@,
            decreases self.entries@.len() - i,
        {
            if same_text(self.entries[i].0.as_str(), address) {
                proof {
                    self.lemma_at(i as int);
                }
                return Some(&self.entries[i].1);
            }
            i = i + 1;
        }
        None
    }

    /// Records what is known of the server at `address`.
    pub fn insert(&mut self, address: String, state: PingState)
        requires
            old(self).wf(),
        ensures
            final(self).wf(),
            final(self)@ == old(self)@.insert(address@, state),
    {
        let ghost before = *self;
        let mut i: usize = 0;
        while i < self.entries.len()
            invariant
                self.wf(),
                *self == before,
                before == *old(self),
                i <= self.entries@.len(),
                forall|k: int| 0 <= k < i ==> (#[trigger] self.entries@[k]).0@ != address@,
            decreases self.entries@.len() - i,
        {
            if same_text(self.entries[i].0.as_str(), address.as_str()) {
                let key = self.entries[i].0.clone();
                self.entries.set(i, (key, state));
                proof {
                    assert forall|a: int, b: int|
                        0 <= a < b < self.entries@.len() implies (#[trigger] self.entries@[a]).0@
                        != (#[trigger] self.entries@[b]).0@ by {
                        assert(before.entries@[a].0@ != before.entries@[b].0@);
                    }
                    lemma_inserted(before, *self, i as int, address@, state);
                }
                return ;
            }
            i = i + 1;
        }
        self.entries.push((address, state));
        proof {
            lemma_inserted(before, *self, before.entries@.len() as int, address@, state);
        }
    }
}

/// Setting or appending one entry is inserting into the map.
proof fn lemma_inserted(
    before: PingResults,
    after: PingResults,
    at: int,
    key: Seq<char>,
    state: PingState,
)
    requires
        before.wf(),
        after.wf(),
        0 <= at < after.entries@.len(),
        after.entries@[at].0@ == key,
        after.entries@[at].1 == state,
        before.entries@.len() <= after.entries@.len() <= before.entries@.len() + 1,
        at < before.entries@.len() ==> after.entries@.len() == before.entries@.len()
            && before.entries@[at].0@ == key,
        after.entries@.len() > before.entries@.len() ==> at == before.entries@.len(),
        forall|i: int|
            0 <= i < before.entries@.len() && i != at ==> #[trigger] after.entries@[i]
                == before.entries@[i],
    ensures
        after@ == before@.insert(key, state),
{
    after.lemma_at(at);
    assert forall|k: Seq<char>| #[trigger]
        after@.contains_key(k) <==> before@.insert(key, state).contains_key(k) by {
        if after@.contains_key(k) && k != key {
            let i = choose|i: int|
                0 <= i < after.entries@.len() && (#[trigger] after.entries@[i]).0@ == k;
            assert(before.entries@[i].0@ == k);
        }
        if before@.contains_key(k) && k != key {
            let i = choose|i: int|
                0 <= i < before.entries@.len() && (#[trigger] before.entries@[i]).0@ == k;
            assert(after.entries@[i].0@ == k);
        }
    }
    assert forall|k: Seq<char>| #[trigger] after@.contains_key(k) implies after@[k]
        == before@.insert(key, state)[k] by {
        if k != key {
            let i = choose|i: int|
                0 <= i < after.entries@.len() && (#[trigger] after.entries@[i]).0@ == k;
            assert(before.entries@[i] == after.entries@[i]);
            before.lemma_at(i);
            after.lemma_at(i);
        }
    }
    assert(after@ =~= before@.insert(key, state));
}

/// What is known once the first `n` servers are being pinged.
pub open spec fn being_pinged(
    known: Map<Seq<char>, PingState>,
    servers: Seq<EntryView>,
    n: nat,
) -> Map<Seq<char>, PingState>
    decreases n,
{
    if n == 0 {
        known
    } else {
        being_pinged(known, servers, (n - 1) as nat).insert(
            servers[n - 1].address,
            PingState::Pinging,
        )
    }
}

/// Marks every server as being pinged and returns the addresses to ping.
pub fn ping_all_servers(servers: &Vec<ServerEntry>, results: &mut PingResults) -> (addresses: Vec<
    String,
>)
    requires
        old(results).wf(),
    ensures
        final(results).wf(),
        final(results)@ == being_pinged(old(results)@, entry_views(servers@), servers@.len()),
        addresses@.len() == servers@.len(),
        forall|i: int|
            0 <= i < servers@.len() ==> (#[trigger] addresses@[i])@ == servers@[i].address@,
{
    let ghost before = results@;
    let ghost views = entry_views(servers@);
    let mut addresses: Vec<String> = Vec::new();
    let mut i: usize = 0;
    while i < servers.len()
        invariant
            i <= servers@.len(),
            views == entry_views(servers@),
            results.wf(),
            results@ == being_pinged(before, views, i as nat),
            addresses@.len() == i,
            forall|k: int|
                0 <= k < i ==> (#[trigger] addresses@[k])@ == servers@[k].address@,
        decreases servers@.len() - i,
    {
        let address = servers[i].address.clone();
        assert(views[i as int].address == address@);
        addresses.push(address.clone());
        results.insert(address, PingState::Pinging);
        i = i + 1;
    }
    addresses
}

/// Records the outcome of a ping that was started in generation `spawned`,
/// unless a refresh has begun a newer generation since.
pub fn finish_ping(
    results: &mut PingResults,
    address: String,
    state: PingState,
    spawned: u64,
    current: u64,
)
    requires
        old(results).wf(),
    ensures
        final(results).wf(),
        final(results)@ == if spawned == current {
            old(results)@.insert(address@, state)
        } else {
            old(results)@
        },
{
    if spawned == current {
        results.insert(address, state);
    }
}

/// The start of an icon that is given as a data address.
pub const FAVICON_PREFIX: &'static str = "data:image/png;base64,";

/// What the standard base64 alphabet with padding decodes a text to: the bytes,
/// or nothing for a text that is not in it.
pub uninterp spec fn base64_bytes(text: Seq<char>) -> Option<Seq<u8>>;

/// Calls `base64::Engine::decode` with
/// `base64::engine::general_purpose::STANDARD`. The outcome depends on the text
/// alone.
#[verifier::external_body]
fn decode_base64(text: &str) -> (bytes: Option<Vec<u8>>)
    ensures
        match bytes {
            Some(b) => base64_bytes(text@) == Some(b@),
            None => base64_bytes(text@) is None,
        },
{
    base64::Engine::decode(&base64::engine::general_purpose::STANDARD, text).ok()
}

/// The base64 part of an icon: what follows the prefix, or all of it without
/// one.
pub open spec fn favicon_payload(data: Seq<char>) -> Seq<char> {
    if has_prefix(data, FAVICON_PREFIX@) {
        data.subrange(FAVICON_PREFIX@.len() as int, data.len() as int)
    } else {
        data
    }
}

/// Whether `rgba` are the pixels of the icon that `data` holds.
pub open spec fn is_favicon(data: Seq<char>, rgba: Option<Vec<u8>>) -> bool {
    match base64_bytes(favicon_payload(data)) {
        None => rgba is None,
        Some(bytes) => match decoded_image(bytes) {
            None => rgba is None,
            Some((w, h, pixels)) => rgba matches Some(r) && r@ == pixels,
        },
    }
}

/// The pixels of an icon.
pub fn decode_favicon(data: &String) -> (rgba: Option<Vec<u8>>)
    ensures
        is_favicon(data@, rgba),
{
    let text = data.as_str();
    let decoded = if starts_with(text, FAVICON_PREFIX) {
        decode_base64(text.substring_char(FAVICON_PREFIX.unicode_len(), text.unicode_len()))
    } else {
        decode_base64(text)
    };
    match decoded {
        None => None,
        Some(bytes) => match decode_image(&bytes) {
            None => None,
            Some(image) => Some(image.rgba),
        },
    }
}

/// The port that is added to an address without one.
pub const DEFAULT_PORT: &'static str = ":25565";

/// An address with a port: as it is where it holds a colon, else with the
/// default port.
pub open spec fn ported(address: Seq<char>) -> Seq<char> {
    if address.contains(':') {
        address
    } else {
        address + DEFAULT_PORT@
    }
}

/// An address with a port.
pub fn with_default_port(address: &String) -> (full: String)
    ensures
        full@ == ported(address@),
{
    let chars = crate::strings::text_chars(address.as_str());
    let mut i: usize = 0;
    while i < chars.len()
        invariant
            i <= chars@.len(),
            chars@ == address@,
            forall|k: int| 0 <= k < i ==> chars@[k] != ':',
        decreases chars@.len() - i,
    {
        if chars[i] == ':' {
            assert(address@[i as int] == ':');
            return address.clone();
        }
        i = i + 1;
    }
    address.clone().concat(DEFAULT_PORT)
}

/// Whether an address names a host: something stands before its first colon.
/// The text of a socket address always does, in either of its forms.
pub open spec fn names_host(address: Seq<char>) -> bool {
    address.len() > 0 && address[0] != ':'
}

/// Whether a server can be saved or joined under `address`.
pub fn is_valid_address(address: &String) -> (valid: bool)
    ensures
        valid == names_host(address@),
{
    let text = address.as_str();
    if text.is_empty() {
        return false;
    }
    text.get_char(0) != ':'
}

/// An address names a host with and without the default port alike.
pub proof fn default_port_keeps_the_host(address: Seq<char>)
    requires
        address.len() > 0,
    ensures
        names_host(ported(address)) == names_host(address),
        ported(ported(address)) == ported(address),
{
    reveal_strlit(":25565");
    if !address.contains(':') {
        let full = address + DEFAULT_PORT@;
        assert(full[address.len() as int] == ':');
        assert(full.contains(':'));
    }
}

} // verus!
