//! The state of the file bank.
use vstd::prelude::*;
use crate::table::Table;
use crate::types::{
    AccountId, Balance, BlockNumber, ByteList, Event, EventView, FileInfo, FileKey, FileState, FillerInfo,
    FillerKey, HeldFiles, PackageDetails, UserFileSliceInfoView,
};

verus! {

/// `(1 << 20)` bytes.
pub const M_BYTE: u128 = 1_048_576;

/// `(1 << 30)` bytes.
pub const G_BYTE: u128 = 1_073_741_824;

/// `(1 << 40)` bytes.
pub const T_BYTE: u128 = 1_099_511_627_776;

/// The identifier of the key type of the file bank's offchain workers.
pub const KEY_TYPE: [u8; 4] = [99u8, 101u8, 115u8, 115u8];

/// The file bank: its constants and its storage.
pub struct Pallet {
    /// The bound of the file bank's bounded strings and lists.
    pub string_limit: u32,
    /// The bound of the list of files that one user holds.
    pub item_limit: u32,
    /// The number of blocks in a day.
    pub one_day: BlockNumber,
    /// The file bank's identifier, which seeds its randomness.
    pub pallet_id: [u8; 8],
    /// Declared files, by hash.
    pub file: Table<Vec<u8>, FileInfo>,
    /// The files that each user holds.
    pub user_hold_file_list: Table<AccountId, HeldFiles>,
    /// The shards that each scheduler is asked to recover.
    pub file_recovery: Table<AccountId, ByteList>,
    pub unit_price: Balance,
    /// Filler data, by miner and filler id.
    pub filler_map: Table<(AccountId, Vec<u8>), FillerInfo>,
    /// The data that each miner is asked to delete.
    pub invalid_file: Table<AccountId, ByteList>,
    pub members: Vec<AccountId>,
    /// Storage packages, by buyer.
    pub purchased_package: Table<AccountId, PackageDetails>,
    /// Files by index.
    pub file_keys_map: Table<u32, FileKey>,
    /// The last file index given out.
    pub file_index_count: u32,
    /// Filler data by index.
    pub filler_keys_map: Table<u32, FillerKey>,
    /// The last filler index given out.
    pub filler_index_count: u32,
    /// The events deposited so far.
    pub events: Vec<Event>,
}

/// The views of a list of events.
pub open spec fn event_list(l: Seq<Event>) -> Seq<EventView> {
    l.map_values(|e: Event| e@)
}

/// The parts of the storage that a call may change.
pub ghost struct Touch {
    pub files: bool,
    pub holds: bool,
    pub recovery: bool,
    pub fillers: bool,
    pub invalid: bool,
    pub members: bool,
    pub packages: bool,
    pub events: bool,
}

/// A call that changes nothing but the named parts.
pub open spec fn touching(
    files: bool,
    holds: bool,
    recovery: bool,
    fillers: bool,
    invalid: bool,
    members: bool,
    packages: bool,
    events: bool,
) -> Touch {
    Touch { files, holds, recovery, fillers, invalid, members, packages, events }
}

/// A call that changes nothing.
pub open spec fn nothing() -> Touch {
    touching(false, false, false, false, false, false, false, false)
}

/// A package's space is what it used plus what it has left.
pub open spec fn package_wf(p: PackageDetails) -> bool {
    &&& p.used_space <= p.space
    &&& p.remaining_space == p.space - p.used_space
}

impl Pallet {
    /// The storage is well formed: no table has a key twice, every file has
    /// one name per user and a hash within the bound of strings, no file index
    /// is beyond the last one given out, every package's space adds up, and
    /// the file and filler indexes lead to what they index.
    pub open spec fn wf(&self) -> bool {
        &&& self.file.wf()
        &&& self.user_hold_file_list.wf()
        &&& self.file_recovery.wf()
        &&& self.filler_map.wf()
        &&& self.invalid_file.wf()
        &&& self.purchased_package.wf()
        &&& self.file_keys_map.wf()
        &&& self.filler_keys_map.wf()
        &&& forall|h: Seq<u8>| #[trigger]
            self.file@.contains_key(h) ==> self.file@[h].user.len()
                == self.file@[h].file_name.len() && h.len() <= self.string_limit
        &&& forall|i: u32| #[trigger] self.file_keys_map@.contains_key(i) ==> i <= self.file_index_count
        &&& forall|a: AccountId| #[trigger]
            self.purchased_package@.contains_key(a) ==> package_wf(
                self.purchased_package@[a],
            )
        &&& self.files_indexed()
        &&& self.fillers_indexed()
    }

    /// Each file index leads to a declared file that carries the index, and
    /// a file that its index marks as stored is active; each file carries an
    /// index given out, and its index, where there is one, leads to it.
    pub open spec fn files_indexed(&self) -> bool {
        &&& forall|i: u32| #[trigger] self.file_keys_map@.contains_key(i) ==> {
            &&& self.file@.contains_key(self.file_keys_map@[i].1)
            &&& self.file@[self.file_keys_map@[i].1].index == i
            &&& self.file_keys_map@[i].0 ==> self.file@[self.file_keys_map@[i].1].file_state
                == FileState::Active
        }
        &&& forall|h: Seq<u8>| #[trigger] self.file@.contains_key(h) ==> {
            &&& self.file@[h].index <= self.file_index_count
            &&& self.file_keys_map@.contains_key(self.file@[h].index) ==> self.file_keys_map@[self.file@[h].index].1
                == h
        }
    }

    /// Each filler index leads to a stored filler that carries the index.
    pub open spec fn fillers_indexed(&self) -> bool {
        forall|i: u32| #[trigger] self.filler_keys_map@.contains_key(i) ==> {
            &&& self.filler_map@.contains_key(self.filler_keys_map@[i])
            &&& self.filler_map@[self.filler_keys_map@[i]].index == i
        }
    }

    /// `new` differs from `self` only in the parts that `t` names.
    pub open spec fn keeps(&self, new: &Pallet, t: Touch) -> bool {
        &&& new.string_limit == self.string_limit
        &&& new.item_limit == self.item_limit
        &&& new.one_day == self.one_day
        &&& new.pallet_id == self.pallet_id
        &&& new.unit_price == self.unit_price
        &&& !t.files ==> {
            &&& new.file == self.file
            &&& new.file_keys_map == self.file_keys_map
            &&& new.file_index_count == self.file_index_count
        }
        &&& !t.holds ==> new.user_hold_file_list == self.user_hold_file_list
        &&& !t.recovery ==> new.file_recovery == self.file_recovery
        &&& !t.fillers ==> {
            &&& new.filler_map == self.filler_map
            &&& new.filler_keys_map == self.filler_keys_map
            &&& new.filler_index_count == self.filler_index_count
        }
        &&& !t.invalid ==> new.invalid_file == self.invalid_file
        &&& !t.members ==> new.members == self.members
        &&& !t.packages ==> new.purchased_package == self.purchased_package
        &&& !t.events ==> new.events == self.events
    }

    /// The files that `acc` holds.
    pub open spec fn held_by(&self, acc: AccountId) -> Seq<UserFileSliceInfoView> {
        if self.user_hold_file_list@.contains_key(acc) {
            self.user_hold_file_list@[acc]
        } else {
            Seq::empty()
        }
    }

    /// The shards that the scheduler `acc` is asked to recover.
    pub open spec fn recovery_of(&self, acc: AccountId) -> Seq<Seq<u8>> {
        if self.file_recovery@.contains_key(acc) {
            self.file_recovery@[acc]
        } else {
            Seq::empty()
        }
    }

    /// The data that the miner `acc` is asked to delete.
    pub open spec fn invalid_of(&self, acc: AccountId) -> Seq<Seq<u8>> {
        if self.invalid_file@.contains_key(acc) {
            self.invalid_file@[acc]
        } else {
            Seq::empty()
        }
    }

    pub open spec fn events_view(&self) -> Seq<EventView> {
        event_list(self.events@)
    }

    /// An empty file bank with the given constants.
    pub fn new(string_limit: u32, item_limit: u32, one_day: BlockNumber, pallet_id: [u8; 8]) -> (p:
        Self)
        ensures
            p.wf(),
            p.string_limit == string_limit,
            p.item_limit == item_limit,
            p.one_day == one_day,
            p.pallet_id == pallet_id,
            p.file@.is_empty(),
            p.user_hold_file_list@.is_empty(),
            p.file_recovery@.is_empty(),
            p.unit_price == 0,
            p.filler_map@.is_empty(),
            p.invalid_file@.is_empty(),
            p.members@.len() == 0,
            p.purchased_package@.is_empty(),
            p.file_keys_map@.is_empty(),
            p.file_index_count == 0,
            p.filler_keys_map@.is_empty(),
            p.filler_index_count == 0,
            p.events@.len() == 0,
    {
        Pallet {
            string_limit,
            item_limit,
            one_day,
            pallet_id,
            file: Table::new(),
            user_hold_file_list: Table::new(),
            file_recovery: Table::new(),
            unit_price: 0,
            filler_map: Table::new(),
            invalid_file: Table::new(),
            members: Vec::new(),
            purchased_package: Table::new(),
            file_keys_map: Table::new(),
            file_index_count: 0,
            filler_keys_map: Table::new(),
            filler_index_count: 0,
            events: Vec::new(),
        }
    }

    /// Appends an event to the record.
    pub fn deposit_event(&mut self, e: Event)
        ensures
            final(self).events_view() == old(self).events_view().push(e@),
            old(self).keeps(final(self), touching(false, false, false, false, false, false, false, true)),
    {
        self.events.push(e);
        assert(self.events_view() =~= old(self).events_view().push(e@));
    }
}

} // verus!
