//! A home: a named, ordered collection of rooms, unique by name. Home-level
//! operations resolve the room first and then delegate to it, wrapping
//! room-level failures so a caller can tell which lookup failed.

use crate::device::{
    device_report_ok, find_device_named, has_device_named, lemma_find_device_named,
    lemma_find_device_named_has, lemma_find_device_named_same_names, Device, DeviceInfo,
    DeviceView,
};
use crate::errors::{HomeErrors, HomeErrorsView, RoomErrorsView};
use crate::room::{
    room_add_device, room_remove_device, room_report_ok, room_report_target, room_turn, Room,
    RoomView,
};
use crate::text::str_eq;
use crate::device::device_names;
use crate::DeviceState;
use vstd::prelude::*;
use vstd::std_specs::vec::vec_index_mut;
use vstd::string::{StrSliceExecFns, StringExecFns};

verus! {

/// Whether some room in the collection carries this name.
pub open spec fn has_room_named(rooms: Seq<RoomView>, name: Seq<char>) -> bool {
    exists|i: int| 0 <= i < rooms.len() && rooms[i].name == name
}

/// Index of the first room with this name at or after `from` (the length if
/// there is none).
pub open spec fn find_room_named(rooms: Seq<RoomView>, name: Seq<char>, from: int) -> int
    decreases rooms.len() - from when 0 <= from <= rooms.len()
{
    if from < rooms.len() {
        if rooms[from].name == name {
            from
        } else {
            find_room_named(rooms, name, from + 1)
        }
    } else {
        rooms.len() as int
    }
}

pub proof fn lemma_find_room_named(rooms: Seq<RoomView>, name: Seq<char>, from: int)
    requires
        0 <= from <= rooms.len(),
    ensures
        from <= find_room_named(rooms, name, from) <= rooms.len(),
        find_room_named(rooms, name, from) < rooms.len() ==> rooms[find_room_named(
            rooms,
            name,
            from,
        )].name == name,
        forall|i: int| from <= i < find_room_named(rooms, name, from) ==> rooms[i].name != name,
    decreases rooms.len() - from,
{
    if from < rooms.len() && rooms[from].name != name {
        lemma_find_room_named(rooms, name, from + 1);
    }
}

/// The search result depends on the room names alone.
pub proof fn lemma_find_room_named_same_names(
    a: Seq<RoomView>,
    b: Seq<RoomView>,
    name: Seq<char>,
    from: int,
)
    requires
        a.len() == b.len(),
        forall|k: int| 0 <= k < a.len() ==> a[k].name == b[k].name,
        0 <= from <= a.len(),
    ensures
        find_room_named(a, name, from) == find_room_named(b, name, from),
    decreases a.len() - from,
{
    if from < a.len() && a[from].name != name {
        lemma_find_room_named_same_names(a, b, name, from + 1);
    }
}

/// Searching from the start succeeds exactly when some room has the name.
pub proof fn lemma_find_room_named_has(rooms: Seq<RoomView>, name: Seq<char>)
    ensures
        (find_room_named(rooms, name, 0) < rooms.len()) == has_room_named(rooms, name),
{
    lemma_find_room_named(rooms, name, 0);
    if find_room_named(rooms, name, 0) < rooms.len() {
        assert(rooms[find_room_named(rooms, name, 0)].name == name);
    }
}

/// The collection with every room of this name removed, order of the rest
/// kept.
pub open spec fn remove_room_named(rooms: Seq<RoomView>, name: Seq<char>) -> Seq<RoomView>
    decreases rooms.len(),
{
    if rooms.len() == 0 {
        Seq::empty()
    } else if rooms[0].name == name {
        remove_room_named(rooms.drop_first(), name)
    } else {
        seq![rooms[0]] + remove_room_named(rooms.drop_first(), name)
    }
}

/// The room names in collection order.
pub open spec fn room_names(rooms: Seq<RoomView>) -> Seq<Seq<char>> {
    rooms.map_values(|r: RoomView| r.name)
}

/// No two rooms in the collection share a name.
pub open spec fn unique_room_names(rooms: Seq<RoomView>) -> bool {
    forall|i: int, j: int| 0 <= i < j < rooms.len() ==> rooms[i].name != rooms[j].name
}

/// Removal takes out every room of the given name, keeps only rooms that were
/// present before, and preserves name uniqueness.
pub proof fn lemma_remove_room_named_props(rooms: Seq<RoomView>, name: Seq<char>)
    ensures
        !has_room_named(remove_room_named(rooms, name), name),
        forall|k: int|
            0 <= k < remove_room_named(rooms, name).len() ==> rooms.contains(
                #[trigger] remove_room_named(rooms, name)[k],
            ),
        unique_room_names(rooms) ==> unique_room_names(remove_room_named(rooms, name)),
    decreases rooms.len(),
{
    let res = remove_room_named(rooms, name);
    if rooms.len() == 0 {
    } else {
        let rest = rooms.drop_first();
        lemma_remove_room_named_props(rest, name);
        let sub = remove_room_named(rest, name);
        assert forall|k: int| 0 <= k < sub.len() implies rooms.contains(#[trigger] sub[k]) by {
            let i = choose|i: int| 0 <= i < rest.len() && rest[i] == sub[k];
            assert(rooms[i + 1] == sub[k]);
        }
        if rooms[0].name == name {
        } else {
            assert(res == seq![rooms[0]] + sub);
            assert(res[0] == rooms[0]);
            assert(rooms.contains(rooms[0]));
            assert forall|k: int| 0 <= k < res.len() implies rooms.contains(#[trigger] res[k]) by {
                if k > 0 {
                    assert(res[k] == sub[k - 1]);
                }
            }
            assert(!has_room_named(res, name)) by {
                if has_room_named(res, name) {
                    let k = choose|k: int| 0 <= k < res.len() && res[k].name == name;
                    assert(k > 0 ==> sub[k - 1].name == name);
                }
            }
            if unique_room_names(rooms) {
                assert(unique_room_names(rest)) by {
                    assert(forall|i: int, j: int|
                        0 <= i < j < rest.len() ==> rest[i] == rooms[i + 1] && rest[j] == rooms[j
                            + 1]);
                }
                assert forall|i: int, j: int| 0 <= i < j < res.len() implies res[i].name
                    != res[j].name by {
                    if i == 0 {
                        assert(rest.contains(sub[j - 1]));
                        let m = choose|m: int| 0 <= m < rest.len() && rest[m] == sub[j - 1];
                        assert(rooms[m + 1] == sub[j - 1]);
                        assert(rooms[0].name != rooms[m + 1].name);
                    } else {
                        assert(res[i] == sub[i - 1] && res[j] == sub[j - 1]);
                    }
                }
            }
        }
    }
}

/// A room-level result wrapped the way the home surfaces it.
pub open spec fn wrap_room_result(res: Result<(), RoomErrorsView>) -> Result<
    (),
    HomeErrorsView,
> {
    match res {
        Ok(()) => Ok(()),
        Err(e) => Err(HomeErrorsView::InternalError(e)),
    }
}

/// Mathematical model of a home.
#[verifier::ext_equal]
pub struct HomeView {
    pub name: Seq<char>,
    pub rooms: Seq<RoomView>,
}

impl HomeView {
    /// The home's invariant: no two rooms share a name, and every room is
    /// itself well-formed.
    pub open spec fn wf(self) -> bool {
        unique_room_names(self.rooms) && (forall|i: int|
            0 <= i < self.rooms.len() ==> (#[trigger] self.rooms[i]).wf())
    }
}

/// What `Home::add_room` does: the home unchanged and a duplicate-name error,
/// or an empty room of that name appended.
pub open spec fn home_add_room(h: HomeView, name: Seq<char>) -> (HomeView, Result<
    (),
    HomeErrorsView,
>) {
    if has_room_named(h.rooms, name) {
        (h, Err(HomeErrorsView::RoomNameExists(name)))
    } else {
        (
            HomeView { rooms: h.rooms.push(RoomView { name, devices: Seq::empty() }), ..h },
            Ok(()),
        )
    }
}

/// What `Home::remove_room` does: every room of that name removed, or the
/// home unchanged and a not-found error.
pub open spec fn home_remove_room(h: HomeView, name: Seq<char>) -> (HomeView, Result<
    (),
    HomeErrorsView,
>) {
    if has_room_named(h.rooms, name) {
        (HomeView { rooms: remove_room_named(h.rooms, name), ..h }, Ok(()))
    } else {
        (h, Err(HomeErrorsView::RoomNameDoesNotExist(name)))
    }
}

/// What `Home::add_device` does: a room-not-found error, or the room-level
/// addition applied to the first room of that name, its failure wrapped.
pub open spec fn home_add_device(h: HomeView, room_name: Seq<char>, d: DeviceView) -> (
    HomeView,
    Result<(), HomeErrorsView>,
) {
    let i = find_room_named(h.rooms, room_name, 0);
    if i < h.rooms.len() {
        let (r2, res) = room_add_device(h.rooms[i], d);
        (HomeView { rooms: h.rooms.update(i, r2), ..h }, wrap_room_result(res))
    } else {
        (h, Err(HomeErrorsView::RoomNameDoesNotExist(room_name)))
    }
}

/// What `Home::remove_device` does, resolved the same way.
pub open spec fn home_remove_device(h: HomeView, room_name: Seq<char>, dev_name: Seq<char>) -> (
    HomeView,
    Result<(), HomeErrorsView>,
) {
    let i = find_room_named(h.rooms, room_name, 0);
    if i < h.rooms.len() {
        let (r2, res) = room_remove_device(h.rooms[i], dev_name);
        (HomeView { rooms: h.rooms.update(i, r2), ..h }, wrap_room_result(res))
    } else {
        (h, Err(HomeErrorsView::RoomNameDoesNotExist(room_name)))
    }
}

/// What `Home::turn_on` / `Home::turn_off` do, resolved the same way.
pub open spec fn home_turn(
    h: HomeView,
    room_name: Seq<char>,
    dev_name: Seq<char>,
    st: DeviceState,
) -> (HomeView, Result<(), HomeErrorsView>) {
    let i = find_room_named(h.rooms, room_name, 0);
    if i < h.rooms.len() {
        let (r2, res) = room_turn(h.rooms[i], dev_name, st);
        (HomeView { rooms: h.rooms.update(i, r2), ..h }, wrap_room_result(res))
    } else {
        (h, Err(HomeErrorsView::RoomNameDoesNotExist(room_name)))
    }
}

/// The device `Home::get_device_report` reports on, or which lookup failed.
pub open spec fn home_report_target(h: HomeView, room_name: Seq<char>, dev_name: Seq<char>) -> Result<
    DeviceView,
    HomeErrorsView,
> {
    let i = find_room_named(h.rooms, room_name, 0);
    if i < h.rooms.len() {
        match room_report_target(h.rooms[i], dev_name) {
            Ok(d) => Ok(d),
            Err(e) => Err(HomeErrorsView::InternalError(e)),
        }
    } else {
        Err(HomeErrorsView::RoomNameDoesNotExist(room_name))
    }
}

/// What `Home::get_devices_in_room` returns: the device names of the first
/// room of that name, or a room-not-found error.
pub open spec fn home_devices_in_room(h: HomeView, room_name: Seq<char>) -> Result<
    Seq<Seq<char>>,
    HomeErrorsView,
> {
    let i = find_room_named(h.rooms, room_name, 0);
    if i < h.rooms.len() {
        Ok(device_names(h.rooms[i].devices))
    } else {
        Err(HomeErrorsView::RoomNameDoesNotExist(room_name))
    }
}

/// A home-level result with its error taken to the model level.
pub open spec fn home_result_view(r: Result<(), HomeErrors>) -> Result<(), HomeErrorsView> {
    match r {
        Ok(()) => Ok(()),
        Err(e) => Err(e@),
    }
}

/// What one entry of a device-report query must hold: the right report on a
/// hit, the error naming the failed lookup on a miss.
pub open spec fn device_report_result_ok(
    h: HomeView,
    room_name: Seq<char>,
    dev_name: Seq<char>,
    res: Result<String, HomeErrors>,
) -> bool {
    match home_report_target(h, room_name, dev_name) {
        Ok(d) => match res {
            Ok(s) => device_report_ok(d, s@),
            Err(_) => false,
        },
        Err(e) => match res {
            Ok(_) => false,
            Err(e2) => e2@ == e,
        },
    }
}

/// The given parts concatenated.
pub open spec fn concat_all(parts: Seq<Seq<char>>) -> Seq<char>
    decreases parts.len(),
{
    if parts.len() == 0 {
        Seq::empty()
    } else {
        parts[0] + concat_all(parts.drop_first())
    }
}

pub proof fn lemma_concat_all_push(parts: Seq<Seq<char>>, x: Seq<char>)
    ensures
        concat_all(parts.push(x)) =~= concat_all(parts) + x,
    decreases parts.len(),
{
    if parts.len() == 0 {
        assert(parts.push(x).drop_first() =~= Seq::<Seq<char>>::empty());
        assert(concat_all(Seq::<Seq<char>>::empty()) == Seq::<char>::empty());
    } else {
        assert(parts.push(x).drop_first() =~= parts.drop_first().push(x));
        lemma_concat_all_push(parts.drop_first(), x);
    }
}

/// All room reports paired with the rooms they describe.
pub open spec fn room_reports_ok(rs: Seq<RoomView>, reps: Seq<Seq<char>>) -> bool {
    reps.len() == rs.len() && (forall|i: int|
        0 <= i < rs.len() ==> room_report_ok(rs[i], #[trigger] reps[i]))
}

/// The framing `Home::get_home_report` puts around its rooms' reports.
pub open spec fn home_report_text(name: Seq<char>, body: Seq<char>) -> Seq<char> {
    "Home name: "@ + name + "\nrooms: [\n"@ + body + "]"@
}

/// What `Home::get_home_report` may return: the home framing around one valid
/// report per room, in insertion order.
pub open spec fn home_report_ok(h: HomeView, s: Seq<char>) -> bool {
    exists|reps: Seq<Seq<char>>|
        room_reports_ok(h.rooms, reps) && s == home_report_text(h.name, concat_all(reps))
}

/// The top of the ownership tree: a named, ordered collection of rooms.
#[derive(Debug)]
pub struct Home {
    name: String,
    rooms: Vec<Room>,
}

impl View for Home {
    type V = HomeView;

    closed spec fn view(&self) -> HomeView {
        HomeView { name: self.name@, rooms: self.rooms@.map_values(|r: Room| r@) }
    }
}

impl Home {
    /// A fresh home of the given name, with no rooms; well-formed.
    pub fn new(name: &str) -> (r: Self)
        ensures
            r@.name == name@,
            r@.rooms =~= Seq::<RoomView>::empty(),
            r@.wf(),
    {
        let r = Home { name: name.to_owned(), rooms: Vec::new() };
        proof {
            assert(r@.rooms =~= Seq::<RoomView>::empty());
        }
        r
    }

    /// Index of the first room with this name, if one is there.
    fn find_index(&self, name: &str) -> (r: Option<usize>)
        ensures
            ({
                let fi = find_room_named(self@.rooms, name@, 0);
                match r {
                    Some(i) => fi == i as int && i < self@.rooms.len(),
                    None => fi == self@.rooms.len() as int,
                }
            }),
    {
        let ghost rooms = self@.rooms;
        let mut i: usize = 0;
        while i < self.rooms.len()
            invariant
                0 <= i <= rooms.len(),
                rooms == self@.rooms,
                rooms.len() == self.rooms@.len(),
                find_room_named(rooms, name@, 0) == find_room_named(rooms, name@, i as int),
            decreases self.rooms.len() - i,
        {
            if str_eq(self.rooms[i].name(), name) {
                return Some(i);
            }
            i = i + 1;
        }
        None
    }

    /// Creates and stores an empty room under this name, unless the name is
    /// already used; then the duplicate-name error, and nothing changes.
    /// Well-formedness is preserved.
    pub fn add_room(&mut self, room_name: &str) -> (r: Result<(), HomeErrors>)
        ensures
            final(self)@ == home_add_room(old(self)@, room_name@).0,
            home_result_view(r) == home_add_room(old(self)@, room_name@).1,
            old(self)@.wf() ==> final(self)@.wf(),
    {
        proof {
            lemma_find_room_named(old(self)@.rooms, room_name@, 0);
            lemma_find_room_named_has(old(self)@.rooms, room_name@);
        }
        match self.find_index(room_name) {
            Some(_) => Err(HomeErrors::RoomNameExists(room_name.to_owned())),
            None => {
                let room = Room::new(room_name);
                self.rooms.push(room);
                proof {
                    let target = RoomView { name: room_name@, devices: Seq::empty() };
                    assert(self@.rooms =~= old(self)@.rooms.push(target));
                    if old(self)@.wf() {
                        let post = old(self)@.rooms.push(target);
                        assert forall|i: int, j: int| 0 <= i < j < post.len() implies post[i].name
                            != post[j].name by {
                            if j == post.len() - 1 {
                                assert(post[i] == old(self)@.rooms[i]);
                            }
                        }
                    }
                }
                Ok(())
            },
        }
    }

    /// Removes the room of this name, with everything in it; fails with the
    /// not-found error and changes nothing if no room has the name.
    /// Well-formedness is preserved.
    pub fn remove_room(&mut self, room_name: &str) -> (r: Result<(), HomeErrors>)
        ensures
            final(self)@ == home_remove_room(old(self)@, room_name@).0,
            home_result_view(r) == home_remove_room(old(self)@, room_name@).1,
            old(self)@.wf() ==> final(self)@.wf(),
    {
        proof {
            lemma_find_room_named_has(old(self)@.rooms, room_name@);
            lemma_remove_room_named_props(old(self)@.rooms, room_name@);
        }
        match self.find_index(room_name) {
            None => Err(HomeErrors::RoomNameDoesNotExist(room_name.to_owned())),
            Some(_) => {
                let ghost orig = old(self)@.rooms;
                let ghost home_name = old(self)@.name;
                let mut kept: Vec<Room> = Vec::new();
                proof {
                    assert(kept@.map_values(|r: Room| r@) =~= Seq::<RoomView>::empty());
                }
                while self.rooms.len() > 0
                    invariant
                        self@.name == home_name,
                        remove_room_named(orig, room_name@) =~= kept@.map_values(|r: Room| r@)
                            + remove_room_named(
                            self.rooms@.map_values(|r: Room| r@),
                            room_name@,
                        ),
                    decreases self.rooms.len(),
                {
                    let ghost pre = self.rooms@.map_values(|r: Room| r@);
                    let room = self.rooms.remove(0);
                    proof {
                        assert(self.rooms@.map_values(|r: Room| r@) =~= pre.drop_first());
                    }
                    if !str_eq(room.name(), room_name) {
                        let ghost kept_pre = kept@.map_values(|r: Room| r@);
                        kept.push(room);
                        proof {
                            assert(kept@.map_values(|r: Room| r@) =~= kept_pre.push(room@));
                            assert(kept_pre.push(room@) + remove_room_named(
                                pre.drop_first(),
                                room_name@,
                            ) =~= kept_pre + (seq![room@] + remove_room_named(
                                pre.drop_first(),
                                room_name@,
                            )));
                        }
                    }
                }
                proof {
                    assert(remove_room_named(
                        self.rooms@.map_values(|r: Room| r@),
                        room_name@,
                    ) =~= Seq::<RoomView>::empty());
                    assert(remove_room_named(orig, room_name@) =~= kept@.map_values(
                        |r: Room| r@,
                    ));
                }
                self.rooms = kept;
                proof {
                    assert(self@ =~= home_remove_room(old(self)@, room_name@).0);
                    if old(self)@.wf() {
                        assert forall|i: int| 0 <= i < self@.rooms.len() implies (
                        #[trigger] self@.rooms[i]).wf() by {
                            assert(orig.contains(self@.rooms[i]));
                            let m = choose|m: int|
                                0 <= m < orig.len() && orig[m] == self@.rooms[i];
                            assert(orig[m].wf());
                        }
                    }
                }
                Ok(())
            },
        }
    }

    /// Hands the device to the room of this name; fails with the
    /// room-not-found error if no room has it, and surfaces the room's
    /// duplicate-name failure wrapped. Well-formedness is preserved.
    pub fn add_device(&mut self, room_name: &str, device: Device) -> (r: Result<(), HomeErrors>)
        ensures
            final(self)@ == home_add_device(old(self)@, room_name@, device@).0,
            home_result_view(r) == home_add_device(old(self)@, room_name@, device@).1,
            old(self)@.wf() ==> final(self)@.wf(),
    {
        match self.find_index(room_name) {
            None => Err(HomeErrors::RoomNameDoesNotExist(room_name.to_owned())),
            Some(i) => {
                let ghost rooms = old(self)@.rooms;
                let room = vec_index_mut(&mut self.rooms, i);
                let res = room.add_device(device);
                proof {
                    assert(self@.rooms =~= rooms.update(
                        i as int,
                        room_add_device(rooms[i as int], device@).0,
                    ));
                    assert(self@ =~= home_add_device(old(self)@, room_name@, device@).0);
                    if old(self)@.wf() {
                        assert(forall|k: int|
                            0 <= k < self@.rooms.len() ==> (#[trigger] self@.rooms[k]).name
                                == rooms[k].name);
                    }
                }
                match res {
                    Ok(()) => Ok(()),
                    Err(e) => Err(HomeErrors::from(e)),
                }
            },
        }
    }

    /// Removes the device the locator names; fails with the room-not-found
    /// error if the room is missing, and surfaces the room's not-found
    /// failure wrapped. Well-formedness is preserved.
    pub fn remove_device(&mut self, device_info: &DeviceInfo) -> (r: Result<(), HomeErrors>)
        ensures
            final(self)@ == home_remove_device(
                old(self)@,
                device_info.room_name@,
                device_info.device_name@,
            ).0,
            home_result_view(r) == home_remove_device(
                old(self)@,
                device_info.room_name@,
                device_info.device_name@,
            ).1,
            old(self)@.wf() ==> final(self)@.wf(),
    {
        match self.find_index(device_info.room_name.as_str()) {
            None => Err(HomeErrors::RoomNameDoesNotExist(device_info.room_name.clone())),
            Some(i) => {
                let ghost rooms = old(self)@.rooms;
                let room = vec_index_mut(&mut self.rooms, i);
                let res = room.remove_device(device_info.device_name.as_str());
                proof {
                    assert(self@.rooms =~= rooms.update(
                        i as int,
                        room_remove_device(rooms[i as int], device_info.device_name@).0,
                    ));
                    assert(self@ =~= home_remove_device(
                        old(self)@,
                        device_info.room_name@,
                        device_info.device_name@,
                    ).0);
                    if old(self)@.wf() {
                        assert(forall|k: int|
                            0 <= k < self@.rooms.len() ==> (#[trigger] self@.rooms[k]).name
                                == rooms[k].name);
                    }
                }
                match res {
                    Ok(()) => Ok(()),
                    Err(e) => Err(HomeErrors::from(e)),
                }
            },
        }
    }

    /// The room names, in insertion order.
    pub fn get_room_names(&self) -> (r: Vec<String>)
        ensures
            r.deep_view() == room_names(self@.rooms),
    {
        let mut out: Vec<String> = Vec::new();
        let mut i: usize = 0;
        while i < self.rooms.len()
            invariant
                0 <= i <= self.rooms@.len(),
                out@.len() == i,
                forall|j: int| 0 <= j < i ==> out@[j]@ == self@.rooms[j].name,
            decreases self.rooms.len() - i,
        {
            out.push(self.rooms[i].name().to_owned());
            i = i + 1;
        }
        proof {
            assert(out.deep_view() =~= room_names(self@.rooms));
        }
        out
    }

    /// One valid report per room, in insertion order, inside the home
    /// framing.
    pub fn get_home_report(&self) -> (r: String)
        ensures
            home_report_ok(self@, r@),
    {
        let ghost mut reps: Seq<Seq<char>> = Seq::empty();
        let mut body = String::new();
        let mut i: usize = 0;
        while i < self.rooms.len()
            invariant
                0 <= i <= self.rooms@.len(),
                reps.len() == i,
                forall|j: int| 0 <= j < i ==> room_report_ok(self@.rooms[j], #[trigger] reps[j]),
                body@ == concat_all(reps),
            decreases self.rooms.len() - i,
        {
            let rep = self.rooms[i].get_report();
            proof {
                lemma_concat_all_push(reps, rep@);
            }
            body.append(rep.as_str());
            proof {
                reps = reps.push(rep@);
                assert(body@ =~= concat_all(reps));
            }
            i = i + 1;
        }
        let mut out = "Home name: ".to_owned();
        out.append(self.name.as_str());
        out.append("\nrooms: [\n");
        out.append(body.as_str());
        out.append("]");
        proof {
            assert(room_reports_ok(self@.rooms, reps));
            assert(out@ =~= home_report_text(self@.name, concat_all(reps)));
        }
        out
    }

    /// The report of the device the locator names, or the error naming which
    /// lookup failed.
    pub fn get_device_report(&self, device_info: &DeviceInfo) -> (r: Result<String, HomeErrors>)
        ensures
            device_report_result_ok(
                self@,
                device_info.room_name@,
                device_info.device_name@,
                r,
            ),
    {
        match self.find_index(device_info.room_name.as_str()) {
            None => Err(HomeErrors::RoomNameDoesNotExist(device_info.room_name.clone())),
            Some(i) => {
                match self.rooms[i].get_device_report(device_info.device_name.as_str()) {
                    Ok(s) => Ok(s),
                    Err(e) => Err(HomeErrors::InternalError(e)),
                }
            },
        }
    }

    /// One report result per locator, in input order; each entry succeeds or
    /// fails on its own, untouched by the others.
    pub fn get_devices_report(&self, device_infos: &Vec<DeviceInfo>) -> (r: Vec<
        Result<String, HomeErrors>,
    >)
        ensures
            r@.len() == device_infos@.len(),
            forall|i: int|
                0 <= i < device_infos@.len() ==> device_report_result_ok(
                    self@,
                    device_infos@[i].room_name@,
                    device_infos@[i].device_name@,
                    #[trigger] r@[i],
                ),
    {
        let mut out: Vec<Result<String, HomeErrors>> = Vec::new();
        let mut i: usize = 0;
        while i < device_infos.len()
            invariant
                0 <= i <= device_infos@.len(),
                out@.len() == i,
                forall|j: int|
                    0 <= j < i ==> device_report_result_ok(
                        self@,
                        device_infos@[j].room_name@,
                        device_infos@[j].device_name@,
                        #[trigger] out@[j],
                    ),
            decreases device_infos.len() - i,
        {
            out.push(self.get_device_report(&device_infos[i]));
            i = i + 1;
        }
        out
    }

    /// The device names of the room with this name, or the room-not-found
    /// error.
    pub fn get_devices_in_room(&self, room_name: &str) -> (r: Result<Vec<String>, HomeErrors>)
        ensures
            ({
                match home_devices_in_room(self@, room_name@) {
                    Ok(names) => r matches Ok(v) && v.deep_view() == names,
                    Err(e) => r matches Err(e2) && e2@ == e,
                }
            }),
    {
        match self.find_index(room_name) {
            None => Err(HomeErrors::RoomNameDoesNotExist(room_name.to_owned())),
            Some(i) => Ok(self.rooms[i].get_devices()),
        }
    }

    /// Switches on the device the locator names; the errors are as for
    /// `remove_device`. Well-formedness is preserved.
    pub fn turn_on(&mut self, device_info: &DeviceInfo) -> (r: Result<(), HomeErrors>)
        ensures
            final(self)@ == home_turn(
                old(self)@,
                device_info.room_name@,
                device_info.device_name@,
                DeviceState::On,
            ).0,
            home_result_view(r) == home_turn(
                old(self)@,
                device_info.room_name@,
                device_info.device_name@,
                DeviceState::On,
            ).1,
            old(self)@.wf() ==> final(self)@.wf(),
    {
        self.turn(device_info, true)
    }

    /// Switches off the device the locator names; the errors are as for
    /// `remove_device`. Well-formedness is preserved.
    pub fn turn_off(&mut self, device_info: &DeviceInfo) -> (r: Result<(), HomeErrors>)
        ensures
            final(self)@ == home_turn(
                old(self)@,
                device_info.room_name@,
                device_info.device_name@,
                DeviceState::Off,
            ).0,
            home_result_view(r) == home_turn(
                old(self)@,
                device_info.room_name@,
                device_info.device_name@,
                DeviceState::Off,
            ).1,
            old(self)@.wf() ==> final(self)@.wf(),
    {
        self.turn(device_info, false)
    }

    fn turn(&mut self, device_info: &DeviceInfo, on: bool) -> (r: Result<(), HomeErrors>)
        ensures
            ({
                let st = if on {
                    DeviceState::On
                } else {
                    DeviceState::Off
                };
                &&& final(self)@ == home_turn(
                    old(self)@,
                    device_info.room_name@,
                    device_info.device_name@,
                    st,
                ).0
                &&& home_result_view(r) == home_turn(
                    old(self)@,
                    device_info.room_name@,
                    device_info.device_name@,
                    st,
                ).1
                &&& (old(self)@.wf() ==> final(self)@.wf())
            }),
    {
        match self.find_index(device_info.room_name.as_str()) {
            None => Err(HomeErrors::RoomNameDoesNotExist(device_info.room_name.clone())),
            Some(i) => {
                let ghost rooms = old(self)@.rooms;
                let ghost st = if on {
                    DeviceState::On
                } else {
                    DeviceState::Off
                };
                let room = vec_index_mut(&mut self.rooms, i);
                let res = if on {
                    room.turn_on(device_info.device_name.as_str())
                } else {
                    room.turn_off(device_info.device_name.as_str())
                };
                proof {
                    assert(self@.rooms =~= rooms.update(
                        i as int,
                        room_turn(rooms[i as int], device_info.device_name@, st).0,
                    ));
                    assert(self@ =~= home_turn(
                        old(self)@,
                        device_info.room_name@,
                        device_info.device_name@,
                        st,
                    ).0);
                    if old(self)@.wf() {
                        assert(forall|k: int|
                            0 <= k < self@.rooms.len() ==> (#[trigger] self@.rooms[k]).name
                                == rooms[k].name);
                    }
                }
                match res {
                    Ok(()) => Ok(()),
                    Err(e) => Err(HomeErrors::from(e)),
                }
            },
        }
    }
}

/// Adding a room under a name that an earlier `add_room` already took fails
/// with the duplicate-name error, and the home — its room count included —
/// stays as it was.
pub proof fn lemma_add_room_duplicate(h: HomeView, name: Seq<char>)
    requires
        home_add_room(h, name).1 is Ok,
    ensures
        ({
            let h1 = home_add_room(h, name).0;
            &&& home_add_room(h1, name).1 == Err::<(), HomeErrorsView>(
                HomeErrorsView::RoomNameExists(name),
            )
            &&& home_add_room(h1, name).0 == h1
            &&& h1.rooms.len() == h.rooms.len() + 1
        }),
{
    let h1 = home_add_room(h, name).0;
    assert(h1.rooms[h.rooms.len() as int].name == name);
}

/// Switching a device on is idempotent at the home level: after one
/// successful `turn_on` of a locator, a second `turn_on` of the same locator
/// succeeds as well and leaves the whole home exactly as it was.
pub proof fn lemma_home_turn_on_idempotent(h: HomeView, room_name: Seq<char>, dev_name: Seq<char>)
    requires
        home_turn(h, room_name, dev_name, DeviceState::On).1 is Ok,
    ensures
        ({
            let h1 = home_turn(h, room_name, dev_name, DeviceState::On).0;
            &&& home_turn(h1, room_name, dev_name, DeviceState::On).1 is Ok
            &&& home_turn(h1, room_name, dev_name, DeviceState::On).0 == h1
        }),
{
    let st = DeviceState::On;
    let h1 = home_turn(h, room_name, dev_name, st).0;
    lemma_find_room_named(h.rooms, room_name, 0);
    let i = find_room_named(h.rooms, room_name, 0);
    let r1 = h.rooms[i];
    let r2 = room_turn(r1, dev_name, st).0;
    assert(has_device_named(r1.devices, dev_name));
    lemma_find_device_named_has(r1.devices, dev_name);
    lemma_find_device_named(r1.devices, dev_name, 0);
    let j = find_device_named(r1.devices, dev_name, 0);
    // the room keeps its name and its devices keep theirs, so both lookups
    // land where they did the first time
    assert(forall|k: int| 0 <= k < h.rooms.len() ==> h1.rooms[k].name == h.rooms[k].name);
    lemma_find_room_named_same_names(h.rooms, h1.rooms, room_name, 0);
    assert(h1.rooms[i] == r2);
    assert(forall|k: int| 0 <= k < r1.devices.len() ==> r2.devices[k].name == r1.devices[k].name);
    lemma_find_device_named_same_names(r1.devices, r2.devices, dev_name, 0);
    assert(r2.devices[j].name == dev_name);
    assert(has_device_named(r2.devices, dev_name));
    // the device already stands on, so the second write changes nothing
    assert(r2.devices[j].state is On);
    let r3 = room_turn(r2, dev_name, st).0;
    assert(r3.devices =~= r2.devices);
    assert(r3 =~= r2);
    assert(home_turn(h1, room_name, dev_name, st).0 =~= h1);
}

/// After `remove_room(name)` succeeds, every home-level operation that
/// addresses room `name` fails with the room-not-found error and leaves the
/// home unchanged.
pub proof fn lemma_removed_room_not_found(
    h: HomeView,
    name: Seq<char>,
    d: DeviceView,
    dev_name: Seq<char>,
)
    requires
        home_remove_room(h, name).1 is Ok,
    ensures
        ({
            let h1 = home_remove_room(h, name).0;
            let err = Err::<(), HomeErrorsView>(HomeErrorsView::RoomNameDoesNotExist(name));
            &&& home_remove_room(h1, name) == (h1, err)
            &&& home_add_device(h1, name, d) == (h1, err)
            &&& home_remove_device(h1, name, dev_name) == (h1, err)
            &&& home_turn(h1, name, dev_name, DeviceState::On) == (h1, err)
            &&& home_turn(h1, name, dev_name, DeviceState::Off) == (h1, err)
            &&& home_report_target(h1, name, dev_name) == Err::<DeviceView, HomeErrorsView>(
                HomeErrorsView::RoomNameDoesNotExist(name),
            )
            &&& home_devices_in_room(h1, name) == Err::<Seq<Seq<char>>, HomeErrorsView>(
                HomeErrorsView::RoomNameDoesNotExist(name),
            )
        }),
{
    lemma_remove_room_named_props(h.rooms, name);
    let h1 = home_remove_room(h, name).0;
    lemma_find_room_named_has(h1.rooms, name);
}

} // verus!
