//! The room mapping: for each room, the search index it feeds and its display name.
use crate::text::{
    clone_opt, lemma_text_lt_irreflexive, lemma_text_lt_total, lemma_text_lt_transitive, str_eq,
    str_lt, text_lt,
};
use vstd::prelude::*;
use vstd::string::*;

verus! {

/// The characters of an optional string.
pub open spec fn opt_view(o: Option<String>) -> Option<Seq<char>> {
    match o {
        Some(s) => Some(s@),
        None => None,
    }
}

/// The row of one room. Either field may be missing while the other is set.
#[derive(Debug, Clone)]
pub struct RoomEntry {
    pub room_id: String,
    pub index_name: Option<String>,
    pub room_name: Option<String>,
}

/// One line of the room listing.
#[derive(Debug, Clone)]
pub struct RoomInfo {
    pub index_name: String,
    pub room_name: Option<String>,
}

/// Why a mapping change was refused.
#[derive(Debug, Clone, Copy, PartialEq, Eq, Structural)]
pub enum MappingError {
    /// The room to move from has no index or no name.
    SourceMissing,
}

/// The first row of `rows` that belongs to `room`.
pub open spec fn record_in(rows: Seq<RoomEntry>, room: Seq<char>) -> Option<RoomEntry>
    decreases rows.len(),
{
    if rows.len() == 0 {
        None
    } else if rows[0].room_id@ == room {
        Some(rows[0])
    } else {
        record_in(rows.drop_first(), room)
    }
}

proof fn lemma_record_absent(rows: Seq<RoomEntry>, room: Seq<char>)
    requires
        forall|j: int| 0 <= j < rows.len() ==> rows[j].room_id@ != room,
    ensures
        record_in(rows, room) is None,
    decreases rows.len(),
{
    if rows.len() > 0 {
        lemma_record_absent(rows.drop_first(), room);
    }
}

proof fn lemma_record_first(rows: Seq<RoomEntry>, room: Seq<char>, i: int)
    requires
        0 <= i < rows.len(),
        rows[i].room_id@ == room,
        forall|j: int| 0 <= j < i ==> rows[j].room_id@ != room,
    ensures
        record_in(rows, room) == Some(rows[i]),
    decreases i,
{
    if i > 0 {
        lemma_record_first(rows.drop_first(), room, i - 1);
    }
}

proof fn lemma_record_update(rows: Seq<RoomEntry>, i: int, e: RoomEntry, k: Seq<char>)
    requires
        0 <= i < rows.len(),
        rows[i].room_id@ == e.room_id@,
        forall|j: int| 0 <= j < i ==> rows[j].room_id@ != e.room_id@,
    ensures
        record_in(rows.update(i, e), k) == if k == e.room_id@ {
            Some(e)
        } else {
            record_in(rows, k)
        },
    decreases i,
{
    if i > 0 {
        assert(rows.update(i, e).drop_first() =~= rows.drop_first().update(i - 1, e));
        lemma_record_update(rows.drop_first(), i - 1, e, k);
    } else {
        assert(rows.update(i, e).drop_first() =~= rows.drop_first());
    }
}

proof fn lemma_record_insert(rows: Seq<RoomEntry>, i: int, e: RoomEntry, k: Seq<char>)
    requires
        0 <= i <= rows.len(),
        forall|j: int| 0 <= j < rows.len() ==> rows[j].room_id@ != e.room_id@,
    ensures
        record_in(rows.insert(i, e), k) == if k == e.room_id@ {
            Some(e)
        } else {
            record_in(rows, k)
        },
    decreases i,
{
    if i > 0 {
        assert(rows.insert(i, e).drop_first() =~= rows.drop_first().insert(i - 1, e));
        lemma_record_insert(rows.drop_first(), i - 1, e, k);
    } else {
        assert(rows.insert(i, e).drop_first() =~= rows);
    }
}

proof fn lemma_record_member(rows: Seq<RoomEntry>, k: Seq<char>)
    ensures
        record_in(rows, k) matches Some(e) ==> e.room_id@ == k && exists|j: int|
            0 <= j < rows.len() && rows[j] == e,
    decreases rows.len(),
{
    if rows.len() > 0 && rows[0].room_id@ != k {
        lemma_record_member(rows.drop_first(), k);
        if record_in(rows, k) is Some {
            let j = choose|j: int| 0 <= j < rows.drop_first().len() && rows.drop_first()[j] == record_in(rows, k)->0;
            assert(rows[j + 1] == record_in(rows, k)->0);
        }
    } else if rows.len() > 0 {
        assert(rows[0] == record_in(rows, k)->0);
    }
}

/// The rooms of `rows` that have an index, in the order of their rows.
pub open spec fn indexed_rooms(rows: Seq<RoomEntry>) -> Seq<Seq<char>>
    decreases rows.len(),
{
    if rows.len() == 0 {
        Seq::empty()
    } else {
        let p = indexed_rooms(rows.drop_last());
        if rows.last().index_name is Some {
            p.push(rows.last().room_id@)
        } else {
            p
        }
    }
}

/// The rows are in ascending order of room identifier.
pub open spec fn rows_sorted(rows: Seq<RoomEntry>) -> bool {
    forall|i: int, j: int|
        0 <= i < j < rows.len() ==> text_lt(rows[i].room_id@, rows[j].room_id@)
}

/// No two rows belong to the same room.
pub open spec fn rows_unique(rows: Seq<RoomEntry>) -> bool {
    forall|i: int, j: int|
        0 <= i < rows.len() && 0 <= j < rows.len() && i != j ==> rows[i].room_id@
            != rows[j].room_id@
}

/// The characters of an optional string slice.
pub open spec fn opt_str_view(o: Option<&str>) -> Option<Seq<char>> {
    match o {
        Some(s) => Some(s@),
        None => None,
    }
}

/// `t1` is `t0` with the fields of `room` that are given set and the others kept.
pub open spec fn updated(
    t0: RoomTable,
    t1: RoomTable,
    room: Seq<char>,
    index: Option<Seq<char>>,
    name: Option<Seq<char>>,
) -> bool {
    &&& t1.wf()
    &&& t1.index_of(room) == if index is Some {
        index
    } else {
        t0.index_of(room)
    }
    &&& t1.name_of(room) == if name is Some {
        name
    } else {
        t0.name_of(room)
    }
    &&& forall|k: Seq<char>| k != room ==> #[trigger] t1.record(k) == t0.record(k)
}

/// `t1` is `t0` with the index name and display name of room `a` copied to room `b`.
pub open spec fn moved(t0: RoomTable, t1: RoomTable, a: Seq<char>, b: Seq<char>) -> bool {
    &&& t1.wf()
    &&& t1.index_of(b) == t0.index_of(a)
    &&& t1.name_of(b) == t0.name_of(a)
    &&& forall|k: Seq<char>| k != b ==> #[trigger] t1.record(k) == t0.record(k)
}

/// After moving room `a` to room `b`, room `b` holds exactly the index name and
/// the display name that `a` held.
pub proof fn lemma_move_then_read(t0: RoomTable, t1: RoomTable, a: Seq<char>, b: Seq<char>)
    requires
        moved(t0, t1, a, b),
    ensures
        t1.index_of(b) == t0.index_of(a),
        t1.name_of(b) == t0.name_of(a),
{
}

/// Setting only one field of a room never clears the other: an index set
/// first and a name set after leave both in place.
pub proof fn lemma_partial_updates_keep_other_field(
    t0: RoomTable,
    t1: RoomTable,
    t2: RoomTable,
    room: Seq<char>,
    index: Seq<char>,
    name: Seq<char>,
)
    requires
        updated(t0, t1, room, Some(index), None),
        updated(t1, t2, room, None, Some(name)),
    ensures
        t2.index_of(room) == Some(index),
        t2.name_of(room) == Some(name),
{
}

/// The mapping of rooms to index names and display names.
pub struct RoomTable {
    rows: Vec<RoomEntry>,
}

impl RoomTable {
    /// The record held for `room`.
    pub closed spec fn record(&self, room: Seq<char>) -> Option<RoomEntry> {
        record_in(self.rows@, room)
    }

    /// The rooms with an index, each once, in ascending order.
    pub closed spec fn listing(&self) -> Seq<Seq<char>> {
        indexed_rooms(self.rows@)
    }

    /// The table is well formed.
    pub closed spec fn wf(&self) -> bool {
        rows_unique(self.rows@) && rows_sorted(self.rows@)
    }

    /// The index name held for `room`.
    pub open spec fn index_of(&self, room: Seq<char>) -> Option<Seq<char>> {
        match self.record(room) {
            Some(e) => opt_view(e.index_name),
            None => None,
        }
    }

    /// The display name held for `room`.
    pub open spec fn name_of(&self, room: Seq<char>) -> Option<Seq<char>> {
        match self.record(room) {
            Some(e) => opt_view(e.room_name),
            None => None,
        }
    }

    /// An empty table.
    pub fn new() -> (r: RoomTable)
        ensures
            r.wf(),
            forall|k: Seq<char>| #[trigger] r.record(k) is None,
    {
        let r = RoomTable { rows: Vec::new() };
        proof {
            assert forall|k: Seq<char>| #[trigger] r.record(k) is None by {
                lemma_record_absent(r.rows@, k);
            }
        }
        r
    }

    /// The position of the row of `room`, if there is one.
    fn position(&self, room: &str) -> (r: Option<usize>)
        ensures
            r matches Some(i) ==> i < self.rows@.len() && self.rows@[i as int].room_id@ == room@
                && forall|j: int| 0 <= j < i ==> self.rows@[j].room_id@ != room@,
            r is None ==> forall|j: int|
                0 <= j < self.rows@.len() ==> self.rows@[j].room_id@ != room@,
    {
        let mut i: usize = 0;
        while i < self.rows.len()
            invariant
                0 <= i <= self.rows@.len(),
                forall|j: int| 0 <= j < i ==> self.rows@[j].room_id@ != room@,
            decreases self.rows@.len() - i,
        {
            if str_eq(self.rows[i].room_id.as_str(), room) {
                return Some(i);
            }
            i = i + 1;
        }
        None
    }

    /// The record of `room`, found at position `i` or absent.
    proof fn lemma_lookup(&self, room: Seq<char>, pos: Option<usize>)
        requires
            pos matches Some(i) ==> i < self.rows@.len() && self.rows@[i as int].room_id@ == room
                && forall|j: int| 0 <= j < i ==> self.rows@[j].room_id@ != room,
            pos is None ==> forall|j: int|
                0 <= j < self.rows@.len() ==> self.rows@[j].room_id@ != room,
        ensures
            pos matches Some(i) ==> self.record(room) == Some(self.rows@[i as int]),
            pos is None ==> self.record(room) is None,
    {
        match pos {
            Some(i) => lemma_record_first(self.rows@, room, i as int),
            None => lemma_record_absent(self.rows@, room),
        }
    }

    /// Sets the fields of `room` that are given and keeps the others.
    fn put(&mut self, room: &str, index: Option<String>, name: Option<String>)
        requires
            old(self).wf(),
        ensures
            final(self).wf(),
            final(self).index_of(room@) == if index is Some {
                opt_view(index)
            } else {
                old(self).index_of(room@)
            },
            final(self).name_of(room@) == if name is Some {
                opt_view(name)
            } else {
                old(self).name_of(room@)
            },
            forall|k: Seq<char>| k != room@ ==> #[trigger] final(self).record(k) == old(self).record(k),
    {
        let pos = self.position(room);
        proof {
            self.lemma_lookup(room@, pos);
        }
        match pos {
            Some(i) => {
                let cur = &self.rows[i];
                let e = RoomEntry {
                    room_id: cur.room_id.clone(),
                    index_name: match index {
                        Some(x) => Some(x),
                        None => clone_opt(&cur.index_name),
                    },
                    room_name: match name {
                        Some(x) => Some(x),
                        None => clone_opt(&cur.room_name),
                    },
                };
                let ghost before = self.rows@;
                self.rows.set(i, e);
                proof {
                    assert forall|k: Seq<char>| #[trigger] self.record(k) == if k == e.room_id@ {
                        Some(e)
                    } else {
                        record_in(before, k)
                    } by {
                        lemma_record_update(before, i as int, e, k);
                    }
                    assert(self.rows@ == before.update(i as int, e));
                    assert forall|a: int| 0 <= a < self.rows@.len() implies (#[trigger] self.rows@[a]).room_id@
                        == before[a].room_id@ by {}
                }
            },
            None => {
                let mut ins: usize = 0;
                while ins < self.rows.len() && str_lt(self.rows[ins].room_id.as_str(), room)
                    invariant
                        0 <= ins <= self.rows@.len(),
                        forall|j: int| 0 <= j < ins ==> text_lt(#[trigger] self.rows@[j].room_id@, room@),
                    decreases self.rows@.len() - ins,
                {
                    ins = ins + 1;
                }
                let e = RoomEntry { room_id: String::from_str(room), index_name: index, room_name: name };
                let ghost before = self.rows@;
                proof {
                    if ins < before.len() {
                        lemma_text_lt_total(before[ins as int].room_id@, room@);
                    }
                    assert forall|j: int| ins <= j < before.len() implies text_lt(
                        room@,
                        #[trigger] before[j].room_id@,
                    ) by {
                        if j > ins {
                            lemma_text_lt_transitive(room@, before[ins as int].room_id@, before[j].room_id@);
                        }
                    }
                }
                self.rows.insert(ins, e);
                proof {
                    assert(self.rows@ == before.insert(ins as int, e));
                    assert forall|k: Seq<char>| #[trigger] self.record(k) == if k == e.room_id@ {
                        Some(e)
                    } else {
                        record_in(before, k)
                    } by {
                        lemma_record_insert(before, ins as int, e, k);
                    }
                    assert forall|a: int, b: int|
                        0 <= a < b < self.rows@.len() implies text_lt(
                        (#[trigger] self.rows@[a]).room_id@,
                        (#[trigger] self.rows@[b]).room_id@,
                    ) by {
                        if b < ins {
                        } else if b == ins {
                        } else if a < ins {
                            lemma_text_lt_transitive(self.rows@[a].room_id@, room@, self.rows@[b].room_id@);
                        } else if a == ins {
                        } else {
                        }
                    }
                    assert forall|a: int, b: int|
                        0 <= a < self.rows@.len() && 0 <= b < self.rows@.len() && a != b implies (
                        #[trigger] self.rows@[a]).room_id@ != (#[trigger] self.rows@[b]).room_id@ by {
                        if a < b {
                            lemma_text_lt_irreflexive(self.rows@[a].room_id@);
                        } else {
                            lemma_text_lt_irreflexive(self.rows@[b].room_id@);
                        }
                    }
                }
            },
        }
    }

    /// Binds `room_id` to `index`, with display name `name`, or the room
    /// identifier itself when no name is given.
    pub fn add_entry(&mut self, room_id: &str, index: &str, name: Option<&str>)
        requires
            old(self).wf(),
        ensures
            final(self).wf(),
            final(self).index_of(room_id@) == Some(index@),
            final(self).name_of(room_id@) == Some(
                match name {
                    Some(n) => n@,
                    None => room_id@,
                },
            ),
            forall|k: Seq<char>| k != room_id@ ==> #[trigger] final(self).record(k) == old(self).record(k),
    {
        let n = match name {
            Some(n) => String::from_str(n),
            None => String::from_str(room_id),
        };
        self.put(room_id, Some(String::from_str(index)), Some(n));
    }

    /// Sets the index name and the display name of `room_id` where they are
    /// given, and leaves the field that is not given as it was.
    pub fn update_entry(&mut self, room_id: &str, index: Option<&str>, name: Option<&str>)
        requires
            old(self).wf(),
        ensures
            updated(*old(self), *final(self), room_id@, opt_str_view(index), opt_str_view(name)),
    {
        let i = match index {
            Some(i) => Some(String::from_str(i)),
            None => None,
        };
        let n = match name {
            Some(n) => Some(String::from_str(n)),
            None => None,
        };
        self.put(room_id, i, n);
    }

    /// Copies the index name and the display name of `old_room_id` to
    /// `new_room_id`, both or neither. Fails, and changes nothing, when the old
    /// room lacks either.
    pub fn move_entry(&mut self, old_room_id: &str, new_room_id: &str) -> (r: Result<(), MappingError>)
        requires
            old(self).wf(),
        ensures
            final(self).wf(),
            r is Err <==> old(self).index_of(old_room_id@) is None || old(self).name_of(
                old_room_id@,
            ) is None,
            r is Err ==> r == Err::<(), MappingError>(MappingError::SourceMissing) && *final(self)
                == *old(self),
            r is Ok ==> moved(*old(self), *final(self), old_room_id@, new_room_id@),
    {
        let index = self.get_index(old_room_id);
        let name = self.get_name(old_room_id);
        match (index, name) {
            (Some(i), Some(n)) => {
                self.put(new_room_id, Some(i), Some(n));
                Ok(())
            },
            _ => Err(MappingError::SourceMissing),
        }
    }

    /// The index name of `room_id`.
    pub fn get_index(&self, room_id: &str) -> (r: Option<String>)
        ensures
            opt_view(r) == self.index_of(room_id@),
    {
        let pos = self.position(room_id);
        proof {
            self.lemma_lookup(room_id@, pos);
        }
        match pos {
            Some(i) => clone_opt(&self.rows[i].index_name),
            None => None,
        }
    }

    /// The display name of `room_id`.
    pub fn get_name(&self, room_id: &str) -> (r: Option<String>)
        ensures
            opt_view(r) == self.name_of(room_id@),
    {
        let pos = self.position(room_id);
        proof {
            self.lemma_lookup(room_id@, pos);
        }
        match pos {
            Some(i) => clone_opt(&self.rows[i].room_name),
            None => None,
        }
    }

    /// With rows unique, the row at position `i` is the record of its room.
    proof fn lemma_row_record(&self, i: int)
        requires
            self.wf(),
            0 <= i < self.rows@.len(),
        ensures
            self.record(self.rows@[i].room_id@) == Some(self.rows@[i]),
    {
        lemma_record_first(self.rows@, self.rows@[i].room_id@, i);
    }

    /// The listing of every room bound to an index, one line per room in
    /// ascending order of room identifier: its index name and display name.
    pub fn get_rooms(&self) -> (r: Vec<RoomInfo>)
        requires
            self.wf(),
        ensures
            r@.len() == self.listing().len(),
            forall|i: int|
                0 <= i < r@.len() ==> self.index_of(#[trigger] self.listing()[i]) == Some(
                    r@[i].index_name@,
                ) && self.name_of(self.listing()[i]) == opt_view(r@[i].room_name),
            forall|i: int, j: int|
                #![trigger self.listing()[i], self.listing()[j]]
                0 <= i < j < self.listing().len() ==> self.listing()[i] != self.listing()[j]
                    && text_lt(self.listing()[i], self.listing()[j]),
            forall|k: Seq<char>| #[trigger] self.index_of(k) is Some ==> self.listing().contains(k),
    {
        let mut result: Vec<RoomInfo> = Vec::new();
        let ghost mut ids: Seq<Seq<char>> = Seq::empty();
        let mut i: usize = 0;
        proof {
            assert(self.rows@.subrange(0, 0) =~= Seq::<RoomEntry>::empty());
        }
        while i < self.rows.len()
            invariant
                self.wf(),
                0 <= i <= self.rows@.len(),
                ids == indexed_rooms(self.rows@.subrange(0, i as int)),
                result@.len() == ids.len(),
                forall|m: int|
                    0 <= m < ids.len() ==> self.index_of(#[trigger] ids[m]) == Some(
                        result@[m].index_name@,
                    ) && self.name_of(ids[m]) == opt_view(result@[m].room_name),
                forall|m: int|
                    #![trigger ids[m]]
                    0 <= m < ids.len() ==> exists|j: int|
                        0 <= j < i && (#[trigger] self.rows@[j]).room_id@ == ids[m],
                forall|m1: int, m2: int|
                    #![trigger ids[m1], ids[m2]]
                    0 <= m1 < m2 < ids.len() ==> ids[m1] != ids[m2] && text_lt(ids[m1], ids[m2]),
                forall|j: int|
                    0 <= j < i && (#[trigger] self.rows@[j]).index_name is Some ==> ids.contains(
                        self.rows@[j].room_id@,
                    ),
            decreases self.rows@.len() - i,
        {
            let row = &self.rows[i];
            proof {
                self.lemma_row_record(i as int);
                assert(self.rows@.subrange(0, i + 1).drop_last() =~= self.rows@.subrange(0, i as int));
                assert(self.rows@.subrange(0, i + 1).last() == self.rows@[i as int]);
            }
            match &row.index_name {
                Some(ix) => {
                    let info = RoomInfo { index_name: ix.clone(), room_name: clone_opt(&row.room_name) };
                    let ghost before = ids;
                    result.push(info);
                    proof {
                        ids = ids.push(row.room_id@);
                        assert forall|m: int| 0 <= m < before.len() implies #[trigger] ids[m] != row.room_id@
                            && text_lt(ids[m], row.room_id@) by {
                            assert(ids[m] == before[m]);
                            let j = choose|j: int| 0 <= j < i && (#[trigger] self.rows@[j]).room_id@ == before[m];
                            assert(j != i);
                            assert(text_lt(before[m], row.room_id@));
                        }
                        assert forall|m1: int, m2: int|
                            #![trigger ids[m1], ids[m2]]
                            0 <= m1 < m2 < ids.len() implies ids[m1] != ids[m2] && text_lt(
                            ids[m1],
                            ids[m2],
                        ) by {
                            assert(ids[m1] == before[m1]);
                            if m2 < before.len() {
                                assert(ids[m2] == before[m2]);
                                assert(before[m1] != before[m2] && text_lt(before[m1], before[m2]));
                            } else {
                                assert(ids[m2] == row.room_id@);
                            }
                        }
                        assert forall|m: int|
                            #![trigger ids[m]]
                            0 <= m < ids.len() implies exists|j: int|
                                0 <= j < i + 1 && (#[trigger] self.rows@[j]).room_id@ == ids[m] by {
                            if m == before.len() {
                                assert(self.rows@[i as int].room_id@ == ids[m]);
                            } else {
                                assert(ids[m] == before[m]);
                            }
                        }
                        assert forall|j: int|
                            0 <= j < i + 1 && (#[trigger] self.rows@[j]).index_name is Some implies ids.contains(
                                self.rows@[j].room_id@,
                            ) by {
                            if j == i {
                                assert(ids[before.len() as int] == self.rows@[j].room_id@);
                            } else {
                                let m = choose|m: int| 0 <= m < before.len() && before[m] == self.rows@[j].room_id@;
                                assert(ids[m] == before[m]);
                            }
                        }
                        assert forall|m: int|
                            0 <= m < ids.len() implies self.index_of(#[trigger] ids[m]) == Some(
                                result@[m].index_name@,
                            ) && self.name_of(ids[m]) == opt_view(result@[m].room_name) by {
                            if m < before.len() {
                                assert(ids[m] == before[m]);
                            }
                        }
                    }
                },
                None => {},
            }
            i = i + 1;
        }
        proof {
            assert(self.rows@.subrange(0, self.rows@.len() as int) =~= self.rows@);
            assert(self.listing() == ids);
            assert forall|k: Seq<char>| #[trigger] self.index_of(k) is Some implies self.listing().contains(k) by {
                lemma_record_member(self.rows@, k);
                let e = self.record(k)->0;
                let j = choose|j: int| 0 <= j < self.rows@.len() && self.rows@[j] == e;
                assert(self.rows@[j].index_name is Some);
            }
        }
        result
    }
}

} // verus!
