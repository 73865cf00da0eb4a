use vstd::prelude::*;

verus! {

/// The HTTP/2 connection parameters of a profile. A field that is `None` is
/// not sent at all; it never stands for a default value.
#[derive(Clone, Copy, Debug, PartialEq, Eq, Structural)]
pub struct Http2Settings {
    pub initial_stream_window_size: Option<u32>,
    pub initial_connection_window_size: Option<u32>,
    pub max_concurrent_streams: Option<u32>,
    pub max_header_list_size: Option<u32>,
    pub header_table_size: Option<u32>,
    pub enable_push: Option<bool>,
}

/// The parameter that an emitted entry carries.
#[derive(Clone, Copy, Debug, PartialEq, Eq, Structural)]
pub enum SettingId {
    HeaderTableSize,
    EnablePush,
    MaxConcurrentStreams,
    InitialStreamWindowSize,
    InitialConnectionWindowSize,
    MaxHeaderListSize,
}

pub open spec fn push_value(b: bool) -> u32 {
    if b {
        1
    } else {
        0
    }
}

/// The value that `s` holds for `id`, if it holds one.
pub open spec fn setting_value(s: Http2Settings, id: SettingId) -> Option<u32> {
    match id {
        SettingId::HeaderTableSize => s.header_table_size,
        SettingId::EnablePush => match s.enable_push {
            Some(b) => Some(push_value(b)),
            None => None,
        },
        SettingId::MaxConcurrentStreams => s.max_concurrent_streams,
        SettingId::InitialStreamWindowSize => s.initial_stream_window_size,
        SettingId::InitialConnectionWindowSize => s.initial_connection_window_size,
        SettingId::MaxHeaderListSize => s.max_header_list_size,
    }
}

pub open spec fn entry(s: Http2Settings, id: SettingId) -> Seq<(SettingId, u32)> {
    match setting_value(s, id) {
        Some(v) => seq![(id, v)],
        None => Seq::empty(),
    }
}

/// The order in which the parameters are handed to the HTTP/2 layer.
pub open spec fn setting_order() -> Seq<SettingId> {
    seq![
        SettingId::HeaderTableSize,
        SettingId::EnablePush,
        SettingId::MaxConcurrentStreams,
        SettingId::InitialStreamWindowSize,
        SettingId::InitialConnectionWindowSize,
        SettingId::MaxHeaderListSize,
    ]
}

/// The entries for the parameters `ids`, in that order.
pub open spec fn entries_for(s: Http2Settings, ids: Seq<SettingId>) -> Seq<(SettingId, u32)>
    decreases ids.len(),
{
    if ids.len() == 0 {
        Seq::empty()
    } else {
        entries_for(s, ids.drop_last()) + entry(s, ids.last())
    }
}

/// The entries handed to the HTTP/2 layer: one for each field that is set.
pub open spec fn frame_of(s: Http2Settings) -> Seq<(SettingId, u32)> {
    entries_for(s, setting_order())
}

fn push_entry(v: &mut Vec<(SettingId, u32)>, id: SettingId, value: Option<u32>)
    ensures
        final(v)@ == old(v)@ + match value {
            Some(x) => seq![(id, x)],
            None => Seq::<(SettingId, u32)>::empty(),
        },
{
    match value {
        Some(x) => v.push((id, x)),
        None => {},
    }
    assert(final(v)@ =~= old(v)@ + match value {
        Some(x) => seq![(id, x)],
        None => Seq::<(SettingId, u32)>::empty(),
    });
}

impl Http2Settings {
    /// The SETTINGS entries to send: each set field exactly once with its
    /// value, no entry for an unset field.
    pub fn settings_frame(&self) -> (r: Vec<(SettingId, u32)>)
        ensures
            r@ == frame_of(*self),
    {
        let push: Option<u32> = match self.enable_push {
            Some(b) => Some(if b { 1u32 } else { 0u32 }),
            None => None,
        };
        let mut v: Vec<(SettingId, u32)> = Vec::new();
        push_entry(&mut v, SettingId::HeaderTableSize, self.header_table_size);
        push_entry(&mut v, SettingId::EnablePush, push);
        push_entry(&mut v, SettingId::MaxConcurrentStreams, self.max_concurrent_streams);
        push_entry(&mut v, SettingId::InitialStreamWindowSize, self.initial_stream_window_size);
        push_entry(
            &mut v,
            SettingId::InitialConnectionWindowSize,
            self.initial_connection_window_size,
        );
        push_entry(&mut v, SettingId::MaxHeaderListSize, self.max_header_list_size);
        proof {
            let o = setting_order();
            assert(o.drop_last().drop_last().drop_last().drop_last().drop_last().drop_last()
                =~= Seq::<SettingId>::empty());
            reveal_with_fuel(entries_for, 7);
            assert(v@ =~= frame_of(*self));
        }
        v
    }
}

/// Every entry carries a parameter of `ids` and the value that `s` holds
/// for it.
proof fn lemma_entries_carry_values(s: Http2Settings, ids: Seq<SettingId>)
    ensures
        forall|i: int|
            0 <= i < entries_for(s, ids).len() ==> ids.contains(
                (#[trigger] entries_for(s, ids)[i]).0,
            ) && setting_value(s, entries_for(s, ids)[i].0) == Some(entries_for(s, ids)[i].1),
    decreases ids.len(),
{
    if ids.len() > 0 {
        let prev = ids.drop_last();
        lemma_entries_carry_values(s, prev);
        let f = entries_for(s, ids);
        assert forall|i: int| 0 <= i < f.len() implies ids.contains((#[trigger] f[i]).0)
            && setting_value(s, f[i].0) == Some(f[i].1) by {
            if i < entries_for(s, prev).len() {
                let k = choose|k: int| 0 <= k < prev.len() && prev[k] == f[i].0;
                assert(ids[k] == f[i].0);
            } else {
                assert(ids[ids.len() - 1] == f[i].0);
            }
        }
    }
}

/// A parameter of `ids` (listed once) that `s` holds appears in exactly one
/// entry.
proof fn lemma_entry_unique(s: Http2Settings, ids: Seq<SettingId>, id: SettingId)
    requires
        ids.no_duplicates(),
        ids.contains(id),
        setting_value(s, id) is Some,
    ensures
        exists|i: int|
            0 <= i < entries_for(s, ids).len() && #[trigger] entries_for(s, ids)[i] == (
                id,
                setting_value(s, id)->0,
            ) && forall|j: int|
                0 <= j < entries_for(s, ids).len() && j != i ==> entries_for(s, ids)[j].0 != id,
    decreases ids.len(),
{
    let prev = ids.drop_last();
    let f = entries_for(s, ids);
    let fp = entries_for(s, prev);
    lemma_entries_carry_values(s, prev);
    if ids.last() == id {
        assert(!prev.contains(id));
        let i = fp.len() as int;
        assert(f[i] == (id, setting_value(s, id)->0));
        assert forall|j: int| 0 <= j < f.len() && j != i implies f[j].0 != id by {
            assert(f[j] == fp[j]);
            assert(prev.contains(fp[j].0));
        }
    } else {
        let k = choose|k: int| 0 <= k < ids.len() && ids[k] == id;
        assert(prev[k] == id);
        lemma_entry_unique(s, prev, id);
        let i = choose|i: int|
            0 <= i < fp.len() && #[trigger] fp[i] == (id, setting_value(s, id)->0) && forall|
                j: int,
            | 0 <= j < fp.len() && j != i ==> fp[j].0 != id;
        assert(f[i] == fp[i]);
        assert forall|j: int| 0 <= j < f.len() && j != i implies f[j].0 != id by {
            if j < fp.len() {
                assert(f[j] == fp[j]);
            }
        }
    }
}

/// An unset field never appears among the emitted entries; a field set to
/// `v` appears exactly once, with the value `v`.
pub proof fn lemma_settings_omission(s: Http2Settings, id: SettingId)
    ensures
        setting_value(s, id) is None ==> forall|i: int|
            0 <= i < frame_of(s).len() ==> (#[trigger] frame_of(s)[i]).0 != id,
        setting_value(s, id) is Some ==> exists|i: int|
            0 <= i < frame_of(s).len() && #[trigger] frame_of(s)[i] == (
                id,
                setting_value(s, id)->0,
            ) && forall|j: int| 0 <= j < frame_of(s).len() && j != i ==> frame_of(s)[j].0 != id,
{
    lemma_entries_carry_values(s, setting_order());
    if setting_value(s, id) is Some {
        let order = setting_order();
        assert(order.no_duplicates());
        assert(order.contains(id)) by {
            match id {
                SettingId::HeaderTableSize => assert(order[0] == id),
                SettingId::EnablePush => assert(order[1] == id),
                SettingId::MaxConcurrentStreams => assert(order[2] == id),
                SettingId::InitialStreamWindowSize => assert(order[3] == id),
                SettingId::InitialConnectionWindowSize => assert(order[4] == id),
                SettingId::MaxHeaderListSize => assert(order[5] == id),
            }
        }
        lemma_entry_unique(s, order, id);
    }
}

} // verus!
