//! The decisions of the dispatch thread: what role a new protocol object
//! plays, and what each toplevel event does to the registry.

use vstd::prelude::*;
use crate::bridge::UiEvent;
use crate::registry::{
    announce, apply_update, has_id, placeholder, sweep, upsert, RecordView, Update, WindowRegistry,
};
use crate::toplevel_state::{decode_state, state_flags, ByteOrder};

verus! {

/// The role of a protocol object, fixed when the object is made.
#[derive(Clone, Copy, Debug, PartialEq, Eq, Structural)]
pub enum ObjectRole {
    ToplevelManager,
    Toplevel,
    Seat,
    Keyboard,
}

/// A breach of the protocol that ends the connection.
#[derive(Clone, Copy, Debug, PartialEq, Eq, Structural)]
pub enum ProtocolError {
    /// An event with this opcode tried to create an object where none may be
    /// created.
    UnexpectedChild { parent: ObjectRole, opcode: u16 },
}

/// The opcode of the toplevel manager's `toplevel` event.
pub const TOPLEVEL_ANNOUNCED: u16 = 0;

/// The role of an object that the compositor creates with an event: only the
/// manager's `toplevel` event may create one, and it creates a toplevel.
pub open spec fn child_role_spec(parent: ObjectRole, opcode: u16) -> Result<
    ObjectRole,
    ProtocolError,
> {
    if parent == ObjectRole::ToplevelManager && opcode == TOPLEVEL_ANNOUNCED {
        Ok(ObjectRole::Toplevel)
    } else {
        Err(ProtocolError::UnexpectedChild { parent, opcode })
    }
}

/// Decides the role of an object that an event creates, before any event on
/// that object arrives.
pub fn child_role(parent: ObjectRole, opcode: u16) -> (r: Result<ObjectRole, ProtocolError>)
    ensures
        r == child_role_spec(parent, opcode),
{
    if parent == ObjectRole::ToplevelManager && opcode == TOPLEVEL_ANNOUNCED {
        Ok(ObjectRole::Toplevel)
    } else {
        Err(ProtocolError::UnexpectedChild { parent, opcode })
    }
}

/// A content event on one toplevel.
pub enum ToplevelEvent {
    Title(String),
    AppId(String),
    /// The raw state array.
    State(Vec<u8>),
    Closed,
}

/// The change that an event makes to its record.
pub open spec fn update_of(ev: ToplevelEvent, order: ByteOrder) -> Update {
    match ev {
        ToplevelEvent::Title(t) => Update::Title(t),
        ToplevelEvent::AppId(a) => Update::AppId(a),
        ToplevelEvent::State(b) => {
            let f = state_flags(b@, order);
            Update::State(f.0, f.1)
        },
        ToplevelEvent::Closed => Update::Closed,
    }
}

pub fn to_update(ev: ToplevelEvent, order: ByteOrder) -> (u: Update)
    ensures
        u == update_of(ev, order),
{
    match ev {
        ToplevelEvent::Title(t) => Update::Title(t),
        ToplevelEvent::AppId(a) => Update::AppId(a),
        ToplevelEvent::State(b) => {
            let f = decode_state(b.as_slice(), order);
            Update::State(f.0, f.1)
        },
        ToplevelEvent::Closed => Update::Closed,
    }
}

/// A new toplevel was announced: its placeholder record is registered at
/// once, and the UI is told to refresh.
pub fn on_toplevel_announced(reg: &mut WindowRegistry, id: String) -> (r: UiEvent)
    requires
        old(reg).wf(),
    ensures
        final(reg).wf(),
        final(reg)@ == announce(old(reg)@, id@),
        r is Refresh,
{
    reg.announce(id);
    UiEvent::Refresh
}

/// A content event on the toplevel `id`: its record gets the change, records
/// marked closed are swept out, and the UI is told to refresh.
pub fn on_toplevel_event(
    reg: &mut WindowRegistry,
    id: String,
    ev: ToplevelEvent,
    order: ByteOrder,
) -> (r: UiEvent)
    requires
        old(reg).wf(),
    ensures
        final(reg).wf(),
        final(reg)@ == sweep(upsert(old(reg)@, id@, update_of(ev, order))),
        r is Refresh,
{
    let u = to_update(ev, order);
    reg.upsert_by_id(id, u);
    reg.remove_closed();
    UiEvent::Refresh
}

/// The bit of a seat's capability mask that says it has a keyboard.
pub const SEAT_KEYBOARD: u32 = 2;

/// Whether a seat with this capability mask has a keyboard worth asking for.
pub fn seat_has_keyboard(capabilities: u32) -> (r: bool)
    ensures
        r == (capabilities & SEAT_KEYBOARD != 0),
{
    capabilities & SEAT_KEYBOARD != 0
}

/// A toplevel's whole life: announced, then titled, then given its
/// application identity, then activated, it shows as exactly one record with
/// those values; its `closed` event then removes it.
pub proof fn lemma_toplevel_lifecycle(id: Seq<char>, title: String, app_id: String)
    ensures
        ({
            let s0 = announce(Seq::empty(), id);
            let s1 = sweep(upsert(s0, id, Update::Title(title)));
            let s2 = sweep(upsert(s1, id, Update::AppId(app_id)));
            let s3 = sweep(upsert(s2, id, Update::State(true, false)));
            &&& s3.len() == 1
            &&& s3[0] == RecordView {
                id,
                title: title@,
                app_id: app_id@,
                minimized: false,
                activated: true,
                closed: false,
            }
            &&& sweep(upsert(s3, id, Update::Closed)).len() == 0
        }),
{
    let s0 = announce(Seq::empty(), id);
    assert(!has_id(Seq::<RecordView>::empty(), id));
    assert(s0 =~= seq![placeholder(id)]);
    let s1 = sweep(upsert(s0, id, Update::Title(title)));
    lemma_upsert_single(placeholder(id), id, Update::Title(title));
    let r1 = apply_update(placeholder(id), Update::Title(title));
    assert(s1 == seq![r1]);
    let s2 = sweep(upsert(s1, id, Update::AppId(app_id)));
    lemma_upsert_single(r1, id, Update::AppId(app_id));
    let r2 = apply_update(r1, Update::AppId(app_id));
    assert(s2 == seq![r2]);
    let s3 = sweep(upsert(s2, id, Update::State(true, false)));
    lemma_upsert_single(r2, id, Update::State(true, false));
    let r3 = apply_update(r2, Update::State(true, false));
    assert(s3 == seq![r3]);
    lemma_upsert_single(r3, id, Update::Closed);
}

/// An upsert on a registry of one open record with that identity, then a
/// sweep: the record changed, or nothing where the change closed it.
proof fn lemma_upsert_single(r: RecordView, id: Seq<char>, u: Update)
    requires
        r.id == id,
        !r.closed,
    ensures
        sweep(upsert(seq![r], id, u)) == if apply_update(r, u).closed {
            Seq::<RecordView>::empty()
        } else {
            seq![apply_update(r, u)]
        },
{
    let s = seq![r];
    assert(s[0].id == id);
    assert(has_id(s, id));
    let i = choose|i: int| 0 <= i < s.len() && s[i].id == id;
    assert(i == 0);
    let t = upsert(s, id, u);
    assert(t =~= seq![apply_update(r, u)]);
    assert(t.drop_last() =~= Seq::<RecordView>::empty());
    assert(sweep(t.drop_last()) == Seq::<RecordView>::empty());
    if !apply_update(r, u).closed {
        assert(Seq::<RecordView>::empty().push(apply_update(r, u)) =~= seq![apply_update(r, u)]);
    }
}

} // verus!
