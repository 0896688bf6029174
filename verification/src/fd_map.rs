//! The requests that watch each file descriptor: one reader, one writer.
use crate::error::IoError;
use crate::fx::{
    FxIntMap, fx_map_contains_key, fx_map_get, fx_map_insert, fx_map_remove, fx_map_try_reserve,
    fx_map_new,
};
use vstd::prelude::*;

verus! {

/// The watchers of one descriptor, as request positions.
#[derive(Debug, Clone, Copy, PartialEq, Eq, Structural)]
pub struct Entry {
    pub reader: Option<usize>,
    pub writer: Option<usize>,
}

/// The outcome of giving `fd` the watchers `reader` and `writer` in `map`,
/// when `room` tells whether room for one more descriptor could be had:
/// the result and the map afterwards.
pub open spec fn spec_update(
    map: Map<i32, Entry>,
    fd: i32,
    reader: Option<usize>,
    writer: Option<usize>,
    room: bool,
) -> (Result<(), IoError>, Map<i32, Entry>) {
    if map.contains_key(fd) {
        let e = map[fd];
        if (e.reader is Some && reader is Some) || (e.writer is Some && writer is Some) {
            (Err(IoError::ResourceBusy), map)
        } else if reader is None && writer is None {
            (Ok(()), map.remove(fd))
        } else {
            (Ok(()), map.insert(fd, Entry { reader, writer }))
        }
    } else if reader is None && writer is None {
        (Ok(()), map)
    } else if room {
        (Ok(()), map.insert(fd, Entry { reader, writer }))
    } else {
        (Err(IoError::OutOfMemory), map)
    }
}

/// Maps descriptors to their watchers; descriptors without watchers are
/// absent.
pub struct FdMap {
    entries: FxIntMap<Entry>,
}

impl View for FdMap {
    type V = Map<i32, Entry>;

    closed spec fn view(&self) -> Map<i32, Entry> {
        self.entries@
    }
}

impl FdMap {
    /// No descriptor maps to an entry without watchers.
    pub open spec fn wf(&self) -> bool {
        forall|fd: i32|
            self@.contains_key(fd) ==> (#[trigger] self@[fd]).reader is Some || self@[fd].writer is Some
    }

    /// An empty map with room for `capacity` descriptors.
    pub fn new(capacity: usize) -> (r: Result<Self, IoError>)
        ensures
            match r {
                Ok(m) => m.wf() && m@ == Map::<i32, Entry>::empty(),
                Err(e) => e == IoError::OutOfMemory,
            },
    {
        let mut entries = fx_map_new();
        if !fx_map_try_reserve(&mut entries, capacity) {
            return Err(IoError::OutOfMemory);
        }
        Ok(FdMap { entries })
    }

    /// Replaces the watchers of `fd`. A descriptor keeps at most one reader
    /// and one writer: giving a reader (writer) to a descriptor that has one
    /// is `ResourceBusy`. A descriptor left without watchers is dropped.
    pub fn update(&mut self, fd: i32, reader: Option<usize>, writer: Option<usize>) -> (r: Result<(), IoError>)
        requires
            old(self).wf(),
        ensures
            final(self).wf(),
            old(self)@.contains_key(fd) ==> {
                let e = old(self)@[fd];
                if (e.reader is Some && reader is Some) || (e.writer is Some && writer is Some) {
                    &&& r == Err::<(), IoError>(IoError::ResourceBusy)
                    &&& final(self)@ == old(self)@
                } else if reader is None && writer is None {
                    &&& r == Ok::<(), IoError>(())
                    &&& final(self)@ == old(self)@.remove(fd)
                } else {
                    &&& r == Ok::<(), IoError>(())
                    &&& final(self)@ == old(self)@.insert(fd, Entry { reader, writer })
                }
            },
            !old(self)@.contains_key(fd) ==> {
                if reader is None && writer is None {
                    &&& r == Ok::<(), IoError>(())
                    &&& final(self)@ == old(self)@
                } else {
                    ||| (r == Ok::<(), IoError>(()) && final(self)@ == old(self)@.insert(
                        fd,
                        Entry { reader, writer },
                    ))
                    ||| (r == Err::<(), IoError>(IoError::OutOfMemory) && final(self)@ == old(
                        self,
                    )@)
                }
            },
    {
        let needs_room = (reader.is_some() || writer.is_some()) && !fx_map_contains_key(
            &self.entries,
            fd,
        );
        let room = !needs_room || fx_map_try_reserve(&mut self.entries, 1);
        self.update_with_room(fd, reader, writer, room)
    }

    /// Replaces the watchers of `fd` as `update` does, where `room` tells
    /// whether room for one more descriptor could be had: it decides only
    /// for a descriptor that has no entry yet and gets a watcher.
    pub fn update_with_room(
        &mut self,
        fd: i32,
        reader: Option<usize>,
        writer: Option<usize>,
        room: bool,
    ) -> (r: Result<(), IoError>)
        requires
            old(self).wf(),
        ensures
            final(self).wf(),
            (r, final(self)@) == spec_update(old(self)@, fd, reader, writer, room),
    {
        match fx_map_get(&self.entries, fd) {
            Some(entry) => {
                if (entry.reader.is_some() && reader.is_some()) || (entry.writer.is_some()
                    && writer.is_some()) {
                    return Err(IoError::ResourceBusy);
                }
                if reader.is_none() && writer.is_none() {
                    fx_map_remove(&mut self.entries, fd);
                } else {
                    fx_map_insert(&mut self.entries, fd, Entry { reader, writer });
                }
            },
            None => {
                if reader.is_some() || writer.is_some() {
                    if !room {
                        return Err(IoError::OutOfMemory);
                    }
                    fx_map_insert(&mut self.entries, fd, Entry { reader, writer });
                }
            },
        }
        Ok(())
    }
}

/// Giving watchers to a descriptor that had none, then taking them away,
/// leaves the map as it was.
pub proof fn law_clearing_forgets(map: Map<i32, Entry>, fd: i32, entry: Entry)
    requires
        !map.contains_key(fd),
    ensures
        map.insert(fd, entry).remove(fd) == map,
{
    assert(map.insert(fd, entry).remove(fd) =~= map);
}

/// Room decides only when a descriptor without an entry gets a watcher,
/// and then it decides alone: with room the watchers are recorded, whatever
/// they are, without it the map is left as it was and the answer is
/// `OutOfMemory`. A descriptor that has an entry is never refused for
/// memory.
pub proof fn law_room_decides_only_new_descriptors(
    map: Map<i32, Entry>,
    fd: i32,
    reader: Option<usize>,
    writer: Option<usize>,
    room: bool,
)
    ensures
        (spec_update(map, fd, reader, writer, room).0 == Err::<(), IoError>(IoError::OutOfMemory))
            <==> (!room && !map.contains_key(fd) && (reader is Some || writer is Some)),
        !map.contains_key(fd) && (reader is Some || writer is Some) && room ==> spec_update(
            map,
            fd,
            reader,
            writer,
            room,
        ) == (Ok::<(), IoError>(()), map.insert(fd, Entry { reader, writer })),
        spec_update(map, fd, reader, writer, room).0 is Err ==> spec_update(
            map,
            fd,
            reader,
            writer,
            room,
        ).1 == map,
{
}

/// Which watchers a descriptor without an entry gets never decides whether
/// it is refused: two updates that each give it some watcher both succeed
/// or both fail.
pub proof fn law_watcher_kind_never_decides(
    map: Map<i32, Entry>,
    fd: i32,
    reader: Option<usize>,
    writer: Option<usize>,
    other_reader: Option<usize>,
    other_writer: Option<usize>,
    room: bool,
)
    requires
        !map.contains_key(fd),
        reader is Some || writer is Some,
        other_reader is Some || other_writer is Some,
    ensures
        spec_update(map, fd, reader, writer, room).0 == spec_update(
            map,
            fd,
            other_reader,
            other_writer,
            room,
        ).0,
{
}

/// A descriptor keeps at most one reader and one writer: an update that
/// gives a reader (or a writer) to a descriptor that has one is refused as
/// busy and changes nothing.
pub proof fn law_one_reader_one_writer(
    map: Map<i32, Entry>,
    fd: i32,
    reader: Option<usize>,
    writer: Option<usize>,
    room: bool,
)
    requires
        map.contains_key(fd),
        (map[fd].reader is Some && reader is Some) || (map[fd].writer is Some && writer is Some),
    ensures
        spec_update(map, fd, reader, writer, room) == (
            Err::<(), IoError>(IoError::ResourceBusy),
            map,
        ),
{
}

} // verus!
