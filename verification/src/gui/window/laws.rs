//! What holds of the window whatever it is told.

use super::{row_of_handle, stream_row, WindowView};
use crate::gui::rows::{AudioStreamRowModel, ClientRowView};
use crate::ipc::{ClientEntryView, ClientHandle, ConfigView, FrontendEvent, StateView};
use crate::net::SocketAddr;
use vstd::prelude::*;

verus! {

/// A client's row stands where it is found, and only there.
pub proof fn lemma_row_of_handle(rows: Seq<ClientRowView>, h: ClientHandle)
    ensures
        match row_of_handle(rows, h) {
            Some(i) => 0 <= i < rows.len() && rows[i].handle == h && forall|j: int|
                0 <= j < i ==> (#[trigger] rows[j]).handle != h,
            None => forall|j: int| 0 <= j < rows.len() ==> (#[trigger] rows[j]).handle != h,
        },
    decreases rows.len(),
{
    if rows.len() > 0 {
        let init = rows.drop_last();
        lemma_row_of_handle(init, h);
        assert(forall|j: int| 0 <= j < init.len() ==> init[j] == rows[j]);
    }
}

/// A stream's row stands where it is found, and only there.
pub proof fn lemma_stream_row(rows: Seq<AudioStreamRowModel>, id: u64)
    ensures
        match stream_row(rows, id) {
            Some(i) => 0 <= i < rows.len() && rows[i].id == id,
            None => forall|j: int| 0 <= j < rows.len() ==> (#[trigger] rows[j]).id != id,
        },
    decreases rows.len(),
{
    if rows.len() > 0 {
        let init = rows.drop_last();
        lemma_stream_row(init, id);
        assert(forall|j: int| 0 <= j < init.len() ==> init[j] == rows[j]);
    }
}

/// No client has two rows.
pub open spec fn one_row_per_client(v: WindowView) -> bool {
    forall|i: int, j: int|
        0 <= i < j < v.clients.len() ==> (#[trigger] v.clients[i]).handle != (
        #[trigger] v.clients[j]).handle
}

/// The rows of audio streams are just those that are known by address, one
/// for each.
pub open spec fn streams_in_order(v: WindowView) -> bool {
    &&& forall|i: int|
        0 <= i < v.streams.len() ==> stream_known(v, #[trigger] v.streams[i])
    &&& forall|i: int, j: int|
        0 <= i < j < v.streams.len() ==> (#[trigger] v.streams[i]).id != (
        #[trigger] v.streams[j]).id
    &&& forall|a: SocketAddr| #[trigger]
        v.streams_by_addr.contains_key(a) ==> stream_shown(v, a)
}

/// A stream's row is the one that its address leads to.
pub open spec fn stream_known(v: WindowView, r: AudioStreamRowModel) -> bool {
    v.streams_by_addr.contains_key(r.addr) && v.streams_by_addr[r.addr] == r.id && r.id
        < v.next_row
}

/// The row that a stream's address leads to is there.
pub open spec fn stream_shown(v: WindowView, a: SocketAddr) -> bool {
    exists|i: int|
        0 <= i < v.streams.len() && (#[trigger] v.streams[i]).addr == a && v.streams[i].id
            == v.streams_by_addr[a]
}

/// Bringing a client's row up to date, or adding it, leaves one row for each.
proof fn lemma_upsert_keeps_rows(
    v: WindowView,
    h: ClientHandle,
    config: ConfigView,
    state: StateView,
)
    requires
        one_row_per_client(v),
    ensures
        one_row_per_client(v.upsert_client(h, config, state)),
        one_row_per_client(v.update_client(h, config, state)),
        streams_in_order(v) ==> streams_in_order(v.upsert_client(h, config, state)),
        streams_in_order(v) ==> streams_in_order(v.update_client(h, config, state)),
{
    reveal(WindowView::upsert_client);
    reveal(WindowView::update_client);
    lemma_row_of_handle(v.clients, h);
    let u = v.update_client(h, config, state);
    let w = v.upsert_client(h, config, state);
    assert forall|i: int, j: int| 0 <= i < j < u.clients.len() implies (
    #[trigger] u.clients[i]).handle != (#[trigger] u.clients[j]).handle by {
        assert(v.clients[i].handle != v.clients[j].handle);
    }
    assert forall|i: int, j: int| 0 <= i < j < w.clients.len() implies (
    #[trigger] w.clients[i]).handle != (#[trigger] w.clients[j]).handle by {
        if j < v.clients.len() {
            assert(v.clients[i].handle != v.clients[j].handle);
        } else {
            assert(v.clients[i].handle != h);
        }
    }
    if streams_in_order(v) {
        lemma_same_streams(v, u);
        lemma_same_streams(v, w);
    }
}

/// What does not touch the streams leaves them in order.
proof fn lemma_same_streams(v: WindowView, w: WindowView)
    requires
        streams_in_order(v),
        v.streams == w.streams,
        v.streams_by_addr == w.streams_by_addr,
        v.next_row <= w.next_row,
    ensures
        streams_in_order(w),
{
    assert forall|i: int| 0 <= i < w.streams.len() implies stream_known(w, #[trigger] w.streams[i]) by {
        assert(stream_known(v, v.streams[i]));
    }
    assert forall|a: SocketAddr| #[trigger] w.streams_by_addr.contains_key(a) implies stream_shown(
        w,
        a,
    ) by {
        assert(stream_shown(v, a));
        let i = choose|i: int|
            0 <= i < v.streams.len() && (#[trigger] v.streams[i]).addr == a && v.streams[i].id
                == v.streams_by_addr[a];
        assert(w.streams[i].addr == a);
    }
}

/// Bringing many clients' rows up to date leaves one row for each.
proof fn lemma_upserts_keep_rows(v: WindowView, clients: Seq<ClientEntryView>)
    requires
        one_row_per_client(v),
    ensures
        one_row_per_client(v.upsert_clients(clients)),
        streams_in_order(v) ==> streams_in_order(v.upsert_clients(clients)),
    decreases clients.len(),
{
    if clients.len() > 0 {
        lemma_upserts_keep_rows(v, clients.drop_last());
        let c = clients.last();
        lemma_upsert_keeps_rows(v.upsert_clients(clients.drop_last()), c.0, c.1, c.2);
    }
}

/// Whatever becomes of an audio stream, its rows stay in order.
proof fn lemma_stream_keeps_order(
    v: WindowView,
    addr: SocketAddr,
    active: bool,
    latency_ms: u32,
    packets_lost: u64,
    level: u32,
)
    requires
        streams_in_order(v),
        active && !v.streams_by_addr.contains_key(addr) ==> v.next_row < u64::MAX,
    ensures
        streams_in_order(v.audio_stream(addr, active, latency_ms, packets_lost, level)),
        v.audio_stream(addr, active, latency_ms, packets_lost, level).streams_by_addr.contains_key(
            addr,
        ) == active,
        v.audio_stream(addr, active, latency_ms, packets_lost, level).clients == v.clients,
{
    reveal(WindowView::audio_stream);
    let w = v.audio_stream(addr, active, latency_ms, packets_lost, level);
    let known = v.streams_by_addr.contains_key(addr);
    let id = v.streams_by_addr[addr];
    if known {
        assert(stream_shown(v, addr));
        lemma_stream_row(v.streams, id);
        let k = choose|k: int|
            0 <= k < v.streams.len() && (#[trigger] v.streams[k]).addr == addr && v.streams[k].id
                == id;
        let r = stream_row(v.streams, id)->0;
        assert(v.streams[k].id == v.streams[r].id);
        assert(k == r) by {
            if k < r {
                assert(v.streams[k].id != v.streams[r].id);
            } else if r < k {
                assert(v.streams[r].id != v.streams[k].id);
            }
        }
        if active {
            assert forall|i: int| 0 <= i < w.streams.len() implies stream_known(
                w,
                #[trigger] w.streams[i],
            ) by {
                assert(stream_known(v, v.streams[i]));
            }
            assert forall|i: int, j: int| 0 <= i < j < w.streams.len() implies (
            #[trigger] w.streams[i]).id != (#[trigger] w.streams[j]).id by {
                assert(v.streams[i].id != v.streams[j].id);
            }
            assert forall|a: SocketAddr| #[trigger]
                w.streams_by_addr.contains_key(a) implies stream_shown(w, a) by {
                assert(stream_shown(v, a));
                let i = choose|i: int|
                    0 <= i < v.streams.len() && (#[trigger] v.streams[i]).addr == a
                        && v.streams[i].id == v.streams_by_addr[a];
                assert(w.streams[i].addr == a);
            }
        } else {
            assert forall|i: int| 0 <= i < w.streams.len() implies stream_known(
                w,
                #[trigger] w.streams[i],
            ) by {
                let m = if i < r { i } else { i + 1 };
                assert(w.streams[i] == v.streams[m]);
                assert(stream_known(v, v.streams[m]));
                if m < r {
                    assert(v.streams[m].id != v.streams[r].id);
                } else {
                    assert(v.streams[r].id != v.streams[m].id);
                }
            }
            assert forall|i: int, j: int| 0 <= i < j < w.streams.len() implies (
            #[trigger] w.streams[i]).id != (#[trigger] w.streams[j]).id by {
                let m = if i < r { i } else { i + 1 };
                let n = if j < r { j } else { j + 1 };
                assert(w.streams[i] == v.streams[m] && w.streams[j] == v.streams[n]);
            }
            assert forall|a: SocketAddr| #[trigger]
                w.streams_by_addr.contains_key(a) implies stream_shown(w, a) by {
                assert(v.streams_by_addr.contains_key(a));
                assert(stream_shown(v, a));
                let i = choose|i: int|
                    0 <= i < v.streams.len() && (#[trigger] v.streams[i]).addr == a
                        && v.streams[i].id == v.streams_by_addr[a];
                assert(i != r);
                let m = if i < r { i } else { i - 1 };
                assert(w.streams[m] == v.streams[i]);
                assert(w.streams[m].addr == a);
            }
        }
    } else if active {
        let n = v.streams.len() as int;
        assert forall|i: int| 0 <= i < w.streams.len() implies stream_known(
            w,
            #[trigger] w.streams[i],
        ) by {
            if i < n {
                assert(w.streams[i] == v.streams[i]);
                assert(stream_known(v, v.streams[i]));
            }
        }
        assert forall|i: int, j: int| 0 <= i < j < w.streams.len() implies (
        #[trigger] w.streams[i]).id != (#[trigger] w.streams[j]).id by {
            assert(w.streams[i] == v.streams[i]);
            assert(stream_known(v, v.streams[i]));
            if j < n {
                assert(w.streams[j] == v.streams[j]);
            }
        }
        assert forall|a: SocketAddr| #[trigger]
            w.streams_by_addr.contains_key(a) implies stream_shown(w, a) by {
            if a == addr {
                assert(w.streams[n].addr == a);
            } else {
                assert(v.streams_by_addr.contains_key(a));
                assert(stream_shown(v, a));
                let i = choose|i: int|
                    0 <= i < v.streams.len() && (#[trigger] v.streams[i]).addr == a
                        && v.streams[i].id == v.streams_by_addr[a];
                assert(w.streams[i] == v.streams[i]);
                assert(w.streams[i].addr == a);
            }
        }
    }
}

/// Whatever the service tells, no client has two rows, and the rows of audio
/// streams are just those that are on, one for each address.
pub proof fn lemma_events_keep_rows_in_order(v: WindowView, e: FrontendEvent, v6: Seq<char>)
    requires
        one_row_per_client(v),
        streams_in_order(v),
        v.takes_row(e) ==> v.next_row < u64::MAX,
    ensures
        one_row_per_client(v.event(e, v6)),
        streams_in_order(v.event(e, v6)),
{
    match e {
        FrontendEvent::Created(h, c, s) => {
            lemma_upsert_keeps_rows(v, h, c@, s@);
        },
        FrontendEvent::State(h, c, s) => {
            lemma_upsert_keeps_rows(v, h, c@, s@);
        },
        FrontendEvent::Enumerate(clients) => {
            lemma_upserts_keep_rows(v, crate::ipc::entry_views(clients@));
        },
        FrontendEvent::Deleted(h) => {
            lemma_row_of_handle(v.clients, h);
            let w = v.event(e, v6);
            if let Some(k) = row_of_handle(v.clients, h) {
                assert forall|i: int, j: int| 0 <= i < j < w.clients.len() implies (
                #[trigger] w.clients[i]).handle != (#[trigger] w.clients[j]).handle by {
                    let m = if i < k { i } else { i + 1 };
                    let n = if j < k { j } else { j + 1 };
                    assert(w.clients[i] == v.clients[m] && w.clients[j] == v.clients[n]);
                }
            }
            lemma_same_streams(v, w);
        },
        FrontendEvent::AudioStream { addr: a, active, latency_ms, packets_lost, level } => {
            reveal(WindowView::client_audio);
            let u = v.client_audio(a, active, latency_ms);
            lemma_row_of_addr(v.clients, a);
            assert forall|i: int, j: int| 0 <= i < j < u.clients.len() implies (
            #[trigger] u.clients[i]).handle != (#[trigger] u.clients[j]).handle by {
                assert(v.clients[i].handle != v.clients[j].handle);
            }
            lemma_same_streams(v, u);
            lemma_stream_keeps_order(u, a, active, latency_ms, packets_lost, level);
        },
        FrontendEvent::PortChanged(port, msg) => {
            reveal(WindowView::reset_port_entry);
            lemma_same_streams(v, v.event(e, v6));
        },
        FrontendEvent::ConnectionAttempt { fingerprint } => {
            reveal(WindowView::open_authorization);
            reveal(WindowView::close_authorization);
            lemma_same_streams(v, v.event(e, v6));
        },
        FrontendEvent::DeviceEntered { .. } => {
            reveal(WindowView::device_entered);
            lemma_same_streams(v, v.event(e, v6));
        },
        FrontendEvent::IncomingDisconnected(a) => {
            reveal(WindowView::device_gone);
            lemma_same_streams(v, v.event(e, v6));
        },
        _ => {
            lemma_same_streams(v, v.event(e, v6));
        },
    }
}

/// The row of a client that is connected from an address is inside the list.
pub proof fn lemma_row_of_addr(rows: Seq<ClientRowView>, a: SocketAddr)
    ensures
        super::row_of_addr(rows, a) matches Some(i) ==> 0 <= i < rows.len(),
    decreases rows.len(),
{
    if rows.len() > 0 {
        lemma_row_of_addr(rows.drop_last(), a);
    }
}

/// The handles of rows, in order.
pub open spec fn row_handles(rows: Seq<ClientRowView>) -> Seq<ClientHandle> {
    rows.map_values(|r: ClientRowView| r.handle)
}

/// The last entry of a list for a client.
pub open spec fn last_entry(list: Seq<ClientEntryView>, h: ClientHandle) -> Option<ClientEntryView>
    decreases list.len(),
{
    if list.len() == 0 {
        None
    } else if list.last().0 == h {
        Some(list.last())
    } else {
        last_entry(list.drop_last(), h)
    }
}

/// The handles of a list that are not known, each once, in the order of the
/// list.
pub open spec fn new_handles(known: Seq<ClientHandle>, list: Seq<ClientEntryView>) -> Seq<
    ClientHandle,
>
    decreases list.len(),
{
    if list.len() == 0 {
        seq![]
    } else {
        let before = new_handles(known, list.drop_last());
        if known.contains(list.last().0) || before.contains(list.last().0) {
            before
        } else {
            before.push(list.last().0)
        }
    }
}

/// A row as an entry for its client leaves it, where there is one.
pub open spec fn with_entry(r: ClientRowView, e: Option<ClientEntryView>) -> ClientRowView {
    match e {
        Some(e) => r.set_config(e.1).set_state(e.2),
        None => r,
    }
}

/// The rows `after` are those `before`, in their places, with what the list
/// says of them, and then one row for each client of the list that had none,
/// in the order of the list.
pub open spec fn rows_follow(
    before: Seq<ClientRowView>,
    list: Seq<ClientEntryView>,
    after: Seq<ClientRowView>,
) -> bool {
    &&& row_handles(after) == row_handles(before) + new_handles(row_handles(before), list)
    &&& forall|i: int|
        0 <= i < before.len() ==> #[trigger] after[i] == with_entry(
            before[i],
            last_entry(list, before[i].handle),
        )
    &&& forall|i: int|
        before.len() <= i < after.len() ==> added_row(list, #[trigger] after[i])
}

/// A row that shows what the list says of its client, and nothing else.
pub open spec fn added_row(list: Seq<ClientEntryView>, r: ClientRowView) -> bool {
    last_entry(list, r.handle) matches Some(e) && r == ClientRowView::init(r.handle, e.1, e.2)
}

/// Every client of a list has a row once the rows follow the list.
proof fn lemma_named_have_rows(
    before: Seq<ClientRowView>,
    list: Seq<ClientEntryView>,
    k: int,
)
    requires
        0 <= k < list.len(),
    ensures
        row_handles(before).contains(list[k].0) || new_handles(
            row_handles(before),
            list,
        ).contains(list[k].0),
    decreases list.len(),
{
    let known = row_handles(before);
    let init = new_handles(known, list.drop_last());
    let all = new_handles(known, list);
    if k < list.len() - 1 {
        lemma_named_have_rows(before, list.drop_last(), k);
        if init.contains(list[k].0) {
            let j = init.index_of(list[k].0);
            assert(all[j] == list[k].0);
        }
    } else if !known.contains(list[k].0) && !init.contains(list[k].0) {
        assert(all[init.len() as int] == list[k].0);
    }
}

/// Bringing the rows of a list up to date makes them follow the list.
proof fn lemma_upserts_follow(v: WindowView, list: Seq<ClientEntryView>)
    requires
        one_row_per_client(v),
    ensures
        one_row_per_client(v.upsert_clients(list)),
        rows_follow(v.clients, list, v.upsert_clients(list).clients),
    decreases list.len(),
{
    let known = row_handles(v.clients);
    if list.len() == 0 {
        assert(known + seq![] =~= known);
    } else {
        let init = list.drop_last();
        let c = list.last();
        let u = v.upsert_clients(init);
        let w = v.upsert_clients(list);
        lemma_upserts_follow(v, init);
        lemma_upsert_keeps_rows(u, c.0, c.1, c.2);
        reveal(WindowView::upsert_client);
        reveal(WindowView::update_client);
        lemma_row_of_handle(u.clients, c.0);
        let fresh = new_handles(known, init);
        let n = known.len();
        assert(row_handles(u.clients) == known + fresh);
        assert(row_handles(u.clients).len() == u.clients.len());
        match row_of_handle(u.clients, c.0) {
            Some(i) => {
                assert(row_handles(u.clients)[i] == c.0);
                if i < n {
                    assert(known[i] == c.0);
                } else {
                    assert(fresh[i - n] == c.0);
                }
                assert(row_handles(w.clients) =~= row_handles(u.clients));
                assert forall|j: int| 0 <= j < w.clients.len() && j != i implies (
                #[trigger] w.clients[j]).handle != c.0 by {
                    if j < i {
                        assert(u.clients[j].handle != u.clients[i].handle);
                    } else {
                        assert(u.clients[i].handle != u.clients[j].handle);
                    }
                }
            },
            None => {
                assert forall|j: int| 0 <= j < n implies known[j] != c.0 by {
                    assert(row_handles(u.clients)[j] == known[j]);
                    assert(u.clients[j].handle != c.0);
                }
                assert forall|j: int| 0 <= j < fresh.len() implies fresh[j] != c.0 by {
                    assert(row_handles(u.clients)[n + j] == fresh[j]);
                    assert(u.clients[n + j].handle != c.0);
                }
                assert(row_handles(w.clients) =~= row_handles(u.clients).push(c.0));
                assert(row_handles(w.clients) =~= known + fresh.push(c.0));
            },
        }
        assert(row_handles(w.clients) =~= known + new_handles(known, list));
        assert forall|j: int| 0 <= j < n implies #[trigger] w.clients[j] == with_entry(
            v.clients[j],
            last_entry(list, v.clients[j].handle),
        ) by {
            assert(u.clients[j] == with_entry(
                v.clients[j],
                last_entry(init, v.clients[j].handle),
            ));
            assert(u.clients[j].handle == v.clients[j].handle);
        }
        assert forall|j: int| n <= j < w.clients.len() implies added_row(
            list,
            #[trigger] w.clients[j],
        ) by {
            if j < u.clients.len() {
                assert(added_row(init, u.clients[j]));
            }
        }
    }
}

/// The rows after a client's state was told.
pub open spec fn rows_after_state(
    rows: Seq<ClientRowView>,
    e: ClientEntryView,
    after: Seq<ClientRowView>,
) -> bool {
    &&& after.len() == rows.len()
    &&& forall|i: int|
        0 <= i < rows.len() ==> #[trigger] after[i] == if rows[i].handle == e.0 {
            with_entry(rows[i], Some(e))
        } else {
            rows[i]
        }
}

/// The rows after a client was deleted.
pub open spec fn rows_after_deletion(
    rows: Seq<ClientRowView>,
    h: ClientHandle,
    after: Seq<ClientRowView>,
) -> bool {
    &&& !row_handles(after).contains(h)
    &&& if row_handles(rows).contains(h) {
        after == rows.remove(row_handles(rows).index_of(h))
    } else {
        after == rows
    }
}

/// The rows after the status of an audio stream was told.
pub open spec fn rows_after_stream(rows: Seq<ClientRowView>, after: Seq<ClientRowView>) -> bool {
    &&& after.len() == rows.len()
    &&& forall|i: int|
        0 <= i < rows.len() ==> #[trigger] after[i] == (ClientRowView {
            audio_active: after[i].audio_active,
            audio_latency_ms: after[i].audio_latency_ms,
            ..rows[i]
        })
}

/// A state changes the row of its client alone.
proof fn lemma_state_rows(v: WindowView, e: ClientEntryView)
    requires
        one_row_per_client(v),
    ensures
        rows_after_state(v.clients, e, v.update_client(e.0, e.1, e.2).clients),
{
    reveal(WindowView::update_client);
    let rows = v.clients;
    let after = v.update_client(e.0, e.1, e.2).clients;
    lemma_row_of_handle(rows, e.0);
    assert forall|i: int| 0 <= i < rows.len() implies #[trigger] after[i] == if rows[i].handle
        == e.0 {
        with_entry(rows[i], Some(e))
    } else {
        rows[i]
    } by {
        if let Some(k) = row_of_handle(rows, e.0) {
            if i < k {
                assert(rows[i].handle != rows[k].handle);
            } else if k < i {
                assert(rows[k].handle != rows[i].handle);
            }
        }
    }
}

/// A deletion takes the row of its client alone.
proof fn lemma_deletion_rows(v: WindowView, h: ClientHandle, v6: Seq<char>)
    requires
        one_row_per_client(v),
    ensures
        one_row_per_client(v.event(FrontendEvent::Deleted(h), v6)),
        rows_after_deletion(v.clients, h, v.event(FrontendEvent::Deleted(h), v6).clients),
{
    let rows = v.clients;
    let after = v.event(FrontendEvent::Deleted(h), v6).clients;
    lemma_row_of_handle(rows, h);
    lemma_deleted_client_has_no_row(v, h, v6);
    lemma_row_of_handle(after, h);
    let all = row_handles(rows);
    if let Some(k) = row_of_handle(rows, h) {
        assert(all[k] == h);
        let m = all.index_of(h);
        assert(all[m] == h && 0 <= m < all.len());
        assert(rows[m].handle == h);
        if m < k {
            assert(rows[m].handle != rows[k].handle);
        } else if k < m {
            assert(rows[k].handle != rows[m].handle);
        }
        assert forall|i: int, j: int| 0 <= i < j < after.len() implies (
        #[trigger] after[i]).handle != (#[trigger] after[j]).handle by {
            let a = if i < k { i } else { i + 1 };
            let b = if j < k { j } else { j + 1 };
            assert(after[i] == rows[a] && after[j] == rows[b]);
        }
    } else if all.contains(h) {
        let m = all.index_of(h);
        assert(rows[m].handle == h);
    }
    if row_handles(after).contains(h) {
        let m = row_handles(after).index_of(h);
        assert(after[m].handle == h);
    }
}

/// A stream changes what its client's row says of audio.
proof fn lemma_stream_rows(
    v: WindowView,
    a: SocketAddr,
    active: bool,
    latency_ms: u32,
    packets_lost: u64,
    level: u32,
)
    requires
        one_row_per_client(v),
    ensures
        ({
            let u = v.client_audio(a, active, latency_ms);
            let w = u.audio_stream(a, active, latency_ms, packets_lost, level);
            one_row_per_client(w) && rows_after_stream(v.clients, w.clients)
        }),
{
    reveal(WindowView::client_audio);
    reveal(WindowView::audio_stream);
    lemma_row_of_addr(v.clients, a);
    let u = v.client_audio(a, active, latency_ms);
    assert forall|i: int, j: int| 0 <= i < j < u.clients.len() implies (
    #[trigger] u.clients[i]).handle != (#[trigger] u.clients[j]).handle by {
        assert(v.clients[i].handle != v.clients[j].handle);
    }
}

/// Rows that follow a list have one for every client of the list.
pub proof fn lemma_listed_have_rows(
    rows: Seq<ClientRowView>,
    list: Seq<ClientEntryView>,
    after: Seq<ClientRowView>,
)
    requires
        rows_follow(rows, list, after),
    ensures
        forall|k: int|
            0 <= k < list.len() ==> row_handles(after).contains((#[trigger] list[k]).0),
{
    assert forall|k: int| 0 <= k < list.len() implies row_handles(after).contains(
        (#[trigger] list[k]).0,
    ) by {
        lemma_named_have_rows(rows, list, k);
        lemma_contains_either(
            row_handles(rows),
            new_handles(row_handles(rows), list),
            list[k].0,
        );
    }
}

/// What an event of the service does to the clients' rows. A client that is
/// created or listed has exactly one row afterwards, which shows what the
/// event says of it: the one that it had, in its place, or one at the end, in
/// the order of the list. A state adds no row, and a deletion takes that of
/// its client alone. The other rows keep their order and content, but for
/// what an audio stream changes of them.
pub proof fn lemma_events_change_named_rows(v: WindowView, e: FrontendEvent, v6: Seq<char>)
    requires
        one_row_per_client(v),
    ensures
        one_row_per_client(v.event(e, v6)),
        ({
            let rows = v.clients;
            let after = v.event(e, v6).clients;
            match e {
                FrontendEvent::Created(h, c, s) => {
                    &&& rows_follow(rows, seq![(h, c@, s@)], after)
                    &&& row_handles(after).contains(h)
                },
                FrontendEvent::Enumerate(clients) => {
                    let list = crate::ipc::entry_views(clients@);
                    &&& rows_follow(rows, list, after)
                    &&& forall|k: int|
                        0 <= k < list.len() ==> row_handles(after).contains(
                            (#[trigger] list[k]).0,
                        )
                },
                FrontendEvent::State(h, c, s) => rows_after_state(rows, (h, c@, s@), after),
                FrontendEvent::Deleted(h) => rows_after_deletion(rows, h, after),
                FrontendEvent::AudioStream { .. } => rows_after_stream(rows, after),
                _ => after == rows,
            }
        }),
{
    let rows = v.clients;
    let after = v.event(e, v6).clients;
    match e {
        FrontendEvent::Created(h, c, s) => {
            let list = seq![(h, c@, s@)];
            lemma_upserts_follow(v, list);
            assert(list.drop_last() =~= seq![]);
            assert(v.upsert_clients(list.drop_last()) == v);
            lemma_listed_have_rows(rows, list, after);
            assert(list[0].0 == h);
        },
        FrontendEvent::Enumerate(clients) => {
            let list = crate::ipc::entry_views(clients@);
            lemma_upserts_follow(v, list);
            lemma_listed_have_rows(rows, list, after);
        },
        FrontendEvent::State(h, c, s) => {
            lemma_upsert_keeps_rows(v, h, c@, s@);
            lemma_state_rows(v, (h, c@, s@));
        },
        FrontendEvent::Deleted(h) => {
            lemma_deletion_rows(v, h, v6);
        },
        FrontendEvent::AudioStream { addr: a, active, latency_ms, packets_lost, level } => {
            lemma_stream_rows(v, a, active, latency_ms, packets_lost, level);
        },
        FrontendEvent::PortChanged(port, msg) => {
            reveal(WindowView::reset_port_entry);
        },
        FrontendEvent::ConnectionAttempt { fingerprint } => {
            reveal(WindowView::open_authorization);
            reveal(WindowView::close_authorization);
        },
        FrontendEvent::DeviceEntered { .. } => {
            reveal(WindowView::device_entered);
        },
        FrontendEvent::IncomingDisconnected(a) => {
            reveal(WindowView::device_gone);
        },
        _ => {},
    }
}

/// What is in one of two sequences is in both together.
proof fn lemma_contains_either(a: Seq<ClientHandle>, b: Seq<ClientHandle>, h: ClientHandle)
    requires
        a.contains(h) || b.contains(h),
    ensures
        (a + b).contains(h),
{
    if a.contains(h) {
        assert((a + b)[a.index_of(h)] == h);
    } else {
        assert((a + b)[a.len() + b.index_of(h)] == h);
    }
}

/// A client that is deleted has no row any more.
pub proof fn lemma_deleted_client_has_no_row(v: WindowView, h: ClientHandle, v6: Seq<char>)
    requires
        one_row_per_client(v),
    ensures
        row_of_handle(v.event(FrontendEvent::Deleted(h), v6).clients, h) is None,
{
    lemma_row_of_handle(v.clients, h);
    let w = v.event(FrontendEvent::Deleted(h), v6);
    lemma_row_of_handle(w.clients, h);
    if let Some(k) = row_of_handle(v.clients, h) {
        if let Some(i) = row_of_handle(w.clients, h) {
            let m = if i < k { i } else { i + 1 };
            assert(w.clients[i] == v.clients[m]);
            if m < k {
                assert(v.clients[m].handle != v.clients[k].handle);
            } else {
                assert(v.clients[k].handle != v.clients[m].handle);
            }
        }
    }
}

} // verus!
