use file_bank::config::{Config, Effect};
use file_bank::pallet::{Pallet, G_BYTE, M_BYTE};
use file_bank::random_file_list::RandomFileList;
use file_bank::types::{
    AccountId, Balance, BlockNumber, DispatchError, DispatchResult, Error, Event, FileState,
    FillerInfo, Origin, PackageDetails, PackageState, SliceInfo,
};

/// How the mock runtime answers randomness queries.
#[derive(Clone, Copy)]
enum Randomness {
    /// A value mixed from the seed.
    Mixed,
    /// Zero for even seeds; for an odd seed, its bytes.
    ZeroOnEven,
}

/// A small runtime for the file bank.
struct Env {
    now: BlockNumber,
    schedulers: Vec<AccountId>,
    author: Option<AccountId>,
    first: Result<AccountId, DispatchError>,
    positive: Vec<AccountId>,
    power_and_space: (u128, u128),
    miner_id: u64,
    total: Result<u128, DispatchError>,
    pallet_account: AccountId,
    transfers: Vec<(AccountId, AccountId, Balance)>,
    purchased: u128,
    power_added: Vec<(AccountId, u128)>,
    power_taken: Vec<(AccountId, u128)>,
    space_added: Vec<(AccountId, u128)>,
    space_taken: Vec<(AccountId, u128)>,
    randomness: Randomness,
    effects: Vec<Effect>,
}

fn env(now: BlockNumber) -> Env {
    Env {
        now,
        schedulers: vec![9],
        author: None,
        first: Ok(9),
        positive: vec![5, 6],
        power_and_space: (1000 * M_BYTE, 0),
        miner_id: 77,
        total: Ok(1 << 40),
        pallet_account: 100,
        transfers: Vec::new(),
        purchased: 0,
        power_added: Vec::new(),
        power_taken: Vec::new(),
        space_added: Vec::new(),
        space_taken: Vec::new(),
        randomness: Randomness::Mixed,
        effects: Vec::new(),
    }
}

impl Config for Env {
    fn spec_block_number(&self) -> BlockNumber {
        self.block_number()
    }
    fn spec_contains_scheduler(&self, acc: AccountId) -> bool {
        self.contains_scheduler(acc)
    }
    fn spec_controller_acc(&self, acc: AccountId) -> AccountId {
        self.get_controller_acc(acc)
    }
    fn spec_first_controller(&self) -> Result<AccountId, DispatchError> {
        self.get_first_controller()
    }
    fn spec_block_author(&self) -> Option<AccountId> {
        self.find_author()
    }
    fn spec_miner_state(&self, acc: AccountId) -> Result<Vec<u8>, DispatchError> {
        self.get_miner_state(acc)
    }
    fn spec_power_and_space(&self, acc: AccountId) -> Result<(u128, u128), DispatchError> {
        self.get_power_and_space(acc)
    }
    fn spec_miner_id(&self, acc: AccountId) -> Result<u64, DispatchError> {
        self.get_miner_id(acc)
    }
    fn spec_total_space(&self) -> Result<u128, DispatchError> {
        self.get_space()
    }
    fn spec_pallet_account(&self) -> AccountId {
        self.pallet_account()
    }
    fn spec_effects(&self) -> Vec<Effect> {
        self.effects.clone()
    }
    fn spec_random(&self, subject: Vec<u8>) -> Vec<u8> {
        self.random(&subject)
    }
    fn block_number(&self) -> BlockNumber {
        self.now
    }
    fn contains_scheduler(&self, acc: AccountId) -> bool {
        self.schedulers.contains(&acc)
    }
    fn get_controller_acc(&self, acc: AccountId) -> AccountId {
        acc + 1000
    }
    fn get_first_controller(&self) -> Result<AccountId, DispatchError> {
        self.first
    }
    fn find_author(&self) -> Option<AccountId> {
        self.author
    }
    fn get_miner_state(&self, acc: AccountId) -> Result<Vec<u8>, DispatchError> {
        if acc == 404 {
            Err(DispatchError::Other(4))
        } else if self.positive.contains(&acc) {
            Ok(b"positive".to_vec())
        } else {
            Ok(b"frozen".to_vec())
        }
    }
    fn get_power_and_space(&self, _acc: AccountId) -> Result<(u128, u128), DispatchError> {
        Ok(self.power_and_space)
    }
    fn get_miner_id(&self, _acc: AccountId) -> Result<u64, DispatchError> {
        Ok(self.miner_id)
    }
    fn get_space(&self) -> Result<u128, DispatchError> {
        self.total
    }
    fn pallet_account(&self) -> AccountId {
        self.pallet_account
    }
    fn add_power(&mut self, acc: AccountId, power: u128) -> DispatchResult {
        self.power_added.push((acc, power));
        self.effects.push(Effect::AddPower(acc, power));
        Ok(())
    }
    fn sub_power(&mut self, acc: AccountId, power: u128) -> DispatchResult {
        self.power_taken.push((acc, power));
        self.effects.push(Effect::SubPower(acc, power));
        Ok(())
    }
    fn add_space(&mut self, acc: AccountId, size: u128) -> DispatchResult {
        self.space_added.push((acc, size));
        self.effects.push(Effect::AddSpace(acc, size));
        Ok(())
    }
    fn sub_space(&mut self, acc: AccountId, size: u128) -> DispatchResult {
        self.space_taken.push((acc, size));
        self.effects.push(Effect::SubSpace(acc, size));
        Ok(())
    }
    fn add_purchased_space(&mut self, size: u128) -> DispatchResult {
        self.purchased += size;
        self.effects.push(Effect::AddPurchasedSpace(size));
        Ok(())
    }
    fn sub_purchased_space(&mut self, size: u128) -> DispatchResult {
        self.purchased -= size;
        self.effects.push(Effect::SubPurchasedSpace(size));
        Ok(())
    }
    fn transfer(&mut self, from: AccountId, to: AccountId, amount: Balance) -> DispatchResult {
        self.transfers.push((from, to, amount));
        self.effects.push(Effect::Transfer(from, to, amount));
        Ok(())
    }
    fn random(&self, subject: &Vec<u8>) -> Vec<u8> {
        let seed = u32::from_le_bytes([subject[8], subject[9], subject[10], subject[11]]);
        match self.randomness {
            Randomness::Mixed => seed.wrapping_mul(2_654_435_761).wrapping_add(12_345).to_le_bytes().to_vec(),
            Randomness::ZeroOnEven => {
                if seed % 2 == 0 {
                    vec![0, 0, 0, 0, 9]
                } else {
                    seed.to_le_bytes().to_vec()
                }
            },
        }
    }
}

fn pallet() -> Pallet {
    Pallet::new(64, 64, 100, *b"filbank/")
}

fn package(p: &Pallet, acc: AccountId) -> Option<PackageDetails> {
    p.purchased_package.get(&acc).copied()
}

fn held(p: &Pallet, acc: AccountId) -> Vec<(Vec<u8>, u64)> {
    match p.user_hold_file_list.get(&acc) {
        Some(h) => h.items.iter().map(|i| (i.file_hash.clone(), i.file_size)).collect(),
        None => Vec::new(),
    }
}

fn invalid(p: &Pallet, acc: AccountId) -> Vec<Vec<u8>> {
    match p.invalid_file.get(&acc) {
        Some(l) => l.items.clone(),
        None => Vec::new(),
    }
}

fn recovery(p: &Pallet, acc: AccountId) -> Vec<Vec<u8>> {
    match p.file_recovery.get(&acc) {
        Some(l) => l.items.clone(),
        None => Vec::new(),
    }
}

fn filler(id: &[u8], block_num: u32) -> FillerInfo {
    FillerInfo {
        index: 0,
        filler_size: 8 * 1_048_576,
        block_num,
        segment_size: 1024,
        miner_address: 5,
        filler_id: id.to_vec(),
        filler_hash: b"hash".to_vec(),
    }
}

fn slice(shard: &[u8], miner: AccountId) -> SliceInfo {
    SliceInfo {
        miner_id: 77,
        shard_size: 8 * 1_048_576,
        block_num: 10,
        shard_id: shard.to_vec(),
        miner_ip: b"ip".to_vec(),
        miner_acc: miner,
    }
}

fn err(e: Error) -> DispatchResult {
    Err(DispatchError::Module(e))
}

// ---------------------------------------------------------------- packages

#[test]
fn new_pallet_is_empty() {
    let p = pallet();
    assert_eq!(p.file_index_count, 0);
    assert_eq!(p.filler_index_count, 0);
    assert_eq!(p.file.len(), 0);
    assert_eq!(p.members.len(), 0);
    assert_eq!(p.events.len(), 0);
}

#[test]
fn buy_free_package_records_lease() {
    let mut p = pallet();
    let mut e = env(10);
    assert_eq!(p.buy_package(&mut e, Origin::Signed(7), 1, 0), Ok(()));
    let pk = package(&p, 7).unwrap();
    assert_eq!(
        pk,
        PackageDetails {
            space: 10 * G_BYTE,
            used_space: 0,
            remaining_space: 10 * G_BYTE,
            tenancy: 1,
            package_type: 1,
            start: 10,
            deadline: 3010,
            state: PackageState::Normal,
        }
    );
    assert_eq!(e.transfers, vec![(7, 100, 0)]);
    assert_eq!(e.purchased, 10 * G_BYTE);
    assert_eq!(e.effects, vec![Effect::AddPurchasedSpace(10 * G_BYTE), Effect::Transfer(7, 100, 0)]);
    assert!(matches!(p.events.last(), Some(Event::BuyPackage { acc: 7, size, fee: 0 }) if *size == 10 * G_BYTE));
}

#[test]
fn buy_package_twice_is_refused() {
    let mut p = pallet();
    let mut e = env(10);
    assert_eq!(p.buy_package(&mut e, Origin::Signed(7), 1, 0), Ok(()));
    let before = package(&p, 7);
    assert_eq!(p.buy_package(&mut e, Origin::Signed(7), 2, 0), err(Error::PurchasedPackage));
    assert_eq!(package(&p, 7), before);
    assert_eq!(p.events.len(), 1);
}

#[test]
fn buy_package_needs_a_signer() {
    let mut p = pallet();
    let mut e = env(10);
    assert_eq!(p.buy_package(&mut e, Origin::Unsigned, 1, 0), Err(DispatchError::BadOrigin));
    assert_eq!(p.buy_package(&mut e, Origin::Root, 1, 0), Err(DispatchError::BadOrigin));
    assert_eq!(p.purchased_package.len(), 0);
}

#[test]
fn buy_package_refuses_unknown_offers() {
    let mut p = pallet();
    let mut e = env(10);
    assert_eq!(p.buy_package(&mut e, Origin::Signed(7), 5, 4), err(Error::WrongOperation));
    assert_eq!(p.buy_package(&mut e, Origin::Signed(7), 9, 0), err(Error::WrongOperation));
    assert_eq!(p.purchased_package.len(), 0);
}

#[test]
fn buy_package_is_priced_by_total_space() {
    let mut p = pallet();
    let mut e = env(10);
    assert_eq!(p.buy_package(&mut e, Origin::Signed(7), 2, 0), Ok(()));
    assert_eq!(package(&p, 7).unwrap().space, 500 * G_BYTE);
    assert_eq!(e.transfers, vec![(7, 100, 2_872_467_041_015_500)]);
    assert!(matches!(p.events.last(), Some(Event::BuyPackage { acc: 7, fee: 2_872_467_041_015_500, .. })));
}

#[test]
fn buy_package_of_many_tebibytes() {
    let mut p = pallet();
    let mut e = env(10);
    assert_eq!(p.buy_package(&mut e, Origin::Signed(7), 5, 6), Ok(()));
    assert_eq!(package(&p, 7).unwrap().space, 6u128 << 40);
    assert_eq!(package(&p, 7).unwrap().package_type, 5);
}

#[test]
fn buy_package_reports_space_errors() {
    let mut p = pallet();
    let mut e = env(10);
    e.total = Ok(0);
    assert_eq!(p.buy_package(&mut e, Origin::Signed(7), 3, 0), err(Error::IsZero));
    e.total = Err(DispatchError::Other(3));
    assert_eq!(p.buy_package(&mut e, Origin::Signed(7), 3, 0), Err(DispatchError::Other(3)));
    assert_eq!(p.purchased_package.len(), 0);
}

#[test]
fn renewal_adds_thirty_days() {
    let mut p = pallet();
    let mut e = env(10);
    p.buy_package(&mut e, Origin::Signed(7), 1, 0).unwrap();
    e.now = 20;
    assert_eq!(p.renewal_package(&mut e, Origin::Signed(7)), Ok(()));
    let pk = package(&p, 7).unwrap();
    assert_eq!((pk.start, pk.deadline), (10, 6010));
    assert!(matches!(p.events.last(), Some(Event::PackageRenewal { acc: 7, package_type: 1, fee: 0 })));
    e.now = 7000;
    assert_eq!(p.renewal_package(&mut e, Origin::Signed(7)), Ok(()));
    let pk = package(&p, 7).unwrap();
    assert_eq!((pk.start, pk.deadline), (7000, 10000));
}

#[test]
fn renewal_needs_a_package() {
    let mut p = pallet();
    let mut e = env(10);
    assert_eq!(p.renewal_package(&mut e, Origin::Signed(7)), err(Error::NotPurchasedPackage));
}

#[test]
fn upgrade_charges_the_days_left() {
    let mut p = pallet();
    let mut e = env(0);
    p.buy_package(&mut e, Origin::Signed(7), 1, 0).unwrap();
    e.now = 1050;
    assert_eq!(p.upgrade_package(&mut e, Origin::Signed(7), 2, 0), Ok(()));
    let pk = package(&p, 7).unwrap();
    assert_eq!((pk.space, pk.used_space, pk.remaining_space, pk.package_type), (500 * G_BYTE, 0, 500 * G_BYTE, 2));
    assert_eq!(e.purchased, 500 * G_BYTE);
    assert_eq!(e.transfers.last(), Some(&(7, 100, 1_914_978_027_343_660)));
    assert!(matches!(
        p.events.last(),
        Some(Event::PackageUpgrade { acc: 7, old_type: 1, new_type: 2, fee: 1_914_978_027_343_660 })
    ));
}

#[test]
fn upgrade_to_many_tebibytes_pays_two_days() {
    let mut p = Pallet::new(64, 64, 10, *b"filbank/");
    let mut e = env(1);
    e.total = Ok(60 << 40);
    let cur = PackageDetails {
        space: 10 * G_BYTE,
        used_space: 0,
        remaining_space: 10 * G_BYTE,
        tenancy: 1,
        package_type: 1,
        start: 0,
        deadline: 16,
        state: PackageState::Normal,
    };
    p.purchased_package.insert(7, cur);
    assert_eq!(p.upgrade_package(&mut e, Origin::Signed(7), 5, 6), Ok(()));
    assert_eq!(
        e.effects,
        vec![Effect::AddPurchasedSpace((6u128 << 40) - 10 * G_BYTE), Effect::Transfer(7, 100, 800_000_000_000_000)]
    );
    let pk = package(&p, 7).unwrap();
    assert_eq!((pk.space, pk.remaining_space, pk.package_type), (6u128 << 40, 6u128 << 40, 5));
    assert!(matches!(
        p.events.last(),
        Some(Event::PackageUpgrade { acc: 7, old_type: 1, new_type: 5, fee: 800_000_000_000_000 })
    ));
    assert_eq!(p.upgrade_package(&mut e, Origin::Signed(8), 5, 6), err(Error::NotPurchasedPackage));
    assert_eq!(e.effects.len(), 2);
}

#[test]
fn upgrade_refuses_lower_types_and_lapsed_leases() {
    let mut p = pallet();
    let mut e = env(0);
    p.buy_package(&mut e, Origin::Signed(7), 3, 0).unwrap();
    assert_eq!(p.upgrade_package(&mut e, Origin::Signed(7), 2, 0), Err(DispatchError::Module(Error::WrongOperation)));
    e.now = 5000;
    assert_eq!(p.upgrade_package(&mut e, Origin::Signed(7), 4, 0), Err(DispatchError::Module(Error::LeaseExpired)));
    assert_eq!(p.upgrade_package(&mut e, Origin::Signed(8), 4, 0), err(Error::NotPurchasedPackage));
}

#[test]
fn space_comes_back_when_a_file_goes() {
    let mut p = pallet();
    let mut e = env(0);
    p.buy_package(&mut e, Origin::Signed(7), 1, 0).unwrap();
    let before = package(&p, 7).unwrap();
    assert_eq!(p.update_user_space(7, 1, 1000), Ok(()));
    let mid = package(&p, 7).unwrap();
    assert_eq!((mid.used_space, mid.remaining_space), (1000, 10 * G_BYTE - 1000));
    assert_eq!(p.update_user_space(7, 2, 1000), Ok(()));
    assert_eq!(package(&p, 7).unwrap(), before);
}

#[test]
fn update_user_space_errors() {
    let mut p = pallet();
    let mut e = env(0);
    assert_eq!(p.update_user_space(7, 1, 1), err(Error::NotPurchasedPackage));
    p.buy_package(&mut e, Origin::Signed(7), 1, 0).unwrap();
    assert_eq!(p.update_user_space(7, 1, 10 * G_BYTE + 1), err(Error::InsufficientStorage));
    assert_eq!(p.update_user_space(7, 2, 1), err(Error::Overflow));
    assert_eq!(p.update_user_space(7, 3, 1), err(Error::WrongOperation));
    let mut frozen = package(&p, 7).unwrap();
    frozen.state = PackageState::Frozen;
    p.purchased_package.insert(7, frozen);
    assert_eq!(p.update_user_space(7, 1, 1), err(Error::LeaseFreeze));
}

#[test]
fn expension_grows_the_package() {
    let mut p = pallet();
    let mut e = env(0);
    p.buy_package(&mut e, Origin::Signed(7), 1, 0).unwrap();
    p.update_user_space(7, 1, 100).unwrap();
    assert_eq!(p.expension_puchased_package(7, 20 * G_BYTE, 2), Ok(()));
    let pk = package(&p, 7).unwrap();
    assert_eq!((pk.space, pk.used_space, pk.remaining_space, pk.package_type), (20 * G_BYTE, 100, 20 * G_BYTE - 100, 2));
    assert_eq!(p.expension_puchased_package(7, G_BYTE, 2), err(Error::Overflow));
    assert_eq!(p.expension_puchased_package(8, G_BYTE, 2), err(Error::NotPurchasedPackage));
}

// ------------------------------------------------------------------- files

#[test]
fn declaring_a_new_file_makes_it_pending() {
    let mut p = pallet();
    assert_eq!(p.upload_declaration(Origin::Signed(1), b"h1".to_vec(), b"n1".to_vec()), Ok(()));
    let f = p.file.get(&b"h1".to_vec()).unwrap();
    assert_eq!((f.file_size, f.index, f.file_state), (0, 1, FileState::Pending));
    assert_eq!(f.user, vec![1]);
    assert_eq!(f.file_name, vec![b"n1".to_vec()]);
    assert_eq!(p.file_index_count, 1);
    let k = p.file_keys_map.get(&1).unwrap();
    assert_eq!((k.active, k.file_hash.clone()), (false, b"h1".to_vec()));
    assert!(matches!(p.events.last(), Some(Event::UploadDeclaration { acc: 1, .. })));
}

#[test]
fn declaring_twice_is_refused() {
    let mut p = pallet();
    p.upload_declaration(Origin::Signed(1), b"h1".to_vec(), b"n1".to_vec()).unwrap();
    assert_eq!(p.upload_declaration(Origin::Signed(1), b"h1".to_vec(), b"n2".to_vec()), err(Error::Declarated));
    assert_eq!(p.upload_declaration(Origin::Root, b"h2".to_vec(), b"n2".to_vec()), Err(DispatchError::BadOrigin));
    assert_eq!(p.upload_declaration(Origin::Signed(1), vec![0; 65], b"n".to_vec()), err(Error::Overflow));
}

#[test]
fn declaring_a_known_file_takes_a_package() {
    let mut p = pallet();
    let mut e = env(0);
    p.upload_declaration(Origin::Signed(1), b"h1".to_vec(), b"n1".to_vec()).unwrap();
    assert_eq!(p.upload_declaration(Origin::Signed(2), b"h1".to_vec(), b"n2".to_vec()), err(Error::NotPurchasedPackage));
    p.buy_package(&mut e, Origin::Signed(2), 1, 0).unwrap();
    assert_eq!(p.upload_declaration(Origin::Signed(2), b"h1".to_vec(), b"n2".to_vec()), Ok(()));
    let f = p.file.get(&b"h1".to_vec()).unwrap();
    assert_eq!(f.user, vec![1, 2]);
    assert_eq!(f.file_name, vec![b"n1".to_vec(), b"n2".to_vec()]);
    assert_eq!(held(&p, 2), vec![(b"h1".to_vec(), 0)]);
    assert_eq!(p.file_index_count, 1);
}

#[test]
fn declaring_then_deleting_leaves_no_trace() {
    let mut p = pallet();
    let mut e = env(0);
    p.buy_package(&mut e, Origin::Signed(1), 1, 0).unwrap();
    let before = package(&p, 1);
    p.upload_declaration(Origin::Signed(1), b"h1".to_vec(), b"n1".to_vec()).unwrap();
    assert_eq!(p.delete_file(&mut e, Origin::Signed(1), b"h1".to_vec()), Ok(()));
    assert_eq!(p.file.len(), 0);
    assert_eq!(p.file_keys_map.len(), 0);
    assert_eq!(package(&p, 1), before);
    assert!(matches!(p.events.last(), Some(Event::DeleteFile { acc: 1, .. })));
}

#[test]
fn delete_file_errors() {
    let mut p = pallet();
    let mut e = env(0);
    p.buy_package(&mut e, Origin::Signed(1), 1, 0).unwrap();
    p.upload_declaration(Origin::Signed(1), b"h1".to_vec(), b"n1".to_vec()).unwrap();
    assert_eq!(p.delete_file(&mut e, Origin::Signed(1), b"h9".to_vec()), err(Error::FileNonExistent));
    assert_eq!(p.delete_file(&mut e, Origin::Signed(2), b"h1".to_vec()), err(Error::NotOwner));
    assert_eq!(p.delete_file(&mut e, Origin::Signed(1), vec![1; 65]), err(Error::BoundedVecError));
    assert_eq!(p.delete_file(&mut e, Origin::Unsigned, b"h1".to_vec()), Err(DispatchError::BadOrigin));
    assert_eq!(p.file.len(), 1);
}

#[test]
fn deleting_one_of_two_users_keeps_the_file() {
    let mut p = pallet();
    let mut e = env(0);
    p.buy_package(&mut e, Origin::Signed(1), 1, 0).unwrap();
    p.buy_package(&mut e, Origin::Signed(2), 1, 0).unwrap();
    p.upload_declaration(Origin::Signed(1), b"h1".to_vec(), b"n1".to_vec()).unwrap();
    p.upload_declaration(Origin::Signed(2), b"h1".to_vec(), b"n2".to_vec()).unwrap();
    assert_eq!(p.delete_file(&mut e, Origin::Signed(1), b"h1".to_vec()), Ok(()));
    let f = p.file.get(&b"h1".to_vec()).unwrap();
    assert_eq!(f.user, vec![2]);
    assert_eq!(f.file_name, vec![b"n2".to_vec()]);
}

#[test]
fn upload_makes_a_file_active() {
    let mut p = pallet();
    let mut e = env(0);
    p.buy_package(&mut e, Origin::Signed(1), 1, 0).unwrap();
    p.upload_declaration(Origin::Signed(1), b"h1".to_vec(), b"n1".to_vec()).unwrap();
    assert_eq!(p.upload(&mut e, Origin::Signed(9), b"h1".to_vec(), 1000, Vec::new(), 1), Ok(()));
    let f = p.file.get(&b"h1".to_vec()).unwrap();
    assert_eq!((f.file_size, f.file_state), (1000, FileState::Active));
    assert!(p.file_keys_map.get(&1).unwrap().active);
    assert_eq!(held(&p, 1), vec![(b"h1".to_vec(), 1000)]);
    assert_eq!(package(&p, 1).unwrap().used_space, 1000);
    assert!(matches!(p.events.last(), Some(Event::FileUpload { acc: 1 })));
    assert_eq!(p.upload(&mut e, Origin::Signed(9), b"h1".to_vec(), 1000, Vec::new(), 1), err(Error::FileExistent));
}

#[test]
fn upload_errors() {
    let mut p = pallet();
    let mut e = env(0);
    p.buy_package(&mut e, Origin::Signed(1), 1, 0).unwrap();
    p.buy_package(&mut e, Origin::Signed(2), 1, 0).unwrap();
    p.upload_declaration(Origin::Signed(1), b"h1".to_vec(), b"n1".to_vec()).unwrap();
    assert_eq!(p.upload(&mut e, Origin::Signed(8), b"h1".to_vec(), 10, Vec::new(), 1), err(Error::ScheduleNonExistent));
    assert_eq!(p.upload(&mut e, Origin::Signed(9), b"h9".to_vec(), 10, Vec::new(), 1), err(Error::FileNonExistent));
    assert_eq!(p.upload(&mut e, Origin::Signed(9), b"h1".to_vec(), 10, Vec::new(), 3), err(Error::NotPurchasedPackage));
    assert_eq!(p.upload(&mut e, Origin::Signed(9), b"h1".to_vec(), 10, Vec::new(), 2), err(Error::UserNotDeclared));
    assert_eq!(package(&p, 2).unwrap().used_space, 10);
}

#[test]
fn upload_with_a_slice_replaces_fillers() {
    let mut p = pallet();
    let mut e = env(0);
    p.buy_package(&mut e, Origin::Signed(1), 1, 0).unwrap();
    p.upload_filler(&mut e, Origin::Signed(9), 5, &vec![filler(b"f1", 4), filler(b"f2", 4), filler(b"f3", 4)]).unwrap();
    p.upload_declaration(Origin::Signed(1), b"h1".to_vec(), b"n1".to_vec()).unwrap();
    let slices = vec![slice(b"h1:s01", 5)];
    assert_eq!(p.upload(&mut e, Origin::Signed(9), b"h1".to_vec(), 1000, slices, 1), Ok(()));
    assert_eq!(invalid(&p, 5), vec![b"f1".to_vec(), b"f2".to_vec()]);
    assert!(p.filler_map.get(&(5, b"f3".to_vec())).is_some());
    assert_eq!(p.filler_map.len(), 1);
    assert_eq!(e.space_added, vec![(5, 8 * M_BYTE)]);
    assert_eq!(e.power_taken, vec![(5, 16 * M_BYTE)]);
}

#[test]
fn replace_file_needs_power() {
    let mut p = pallet();
    let mut e = env(0);
    e.power_and_space = (10, 10);
    assert_eq!(p.replace_file(&mut e, 5, 1), err(Error::Overflow));
    e.power_and_space = (20, 10);
    assert_eq!(p.replace_file(&mut e, 5, 11), err(Error::MinerPowerInsufficient));
}

#[test]
fn invalid_data_round_trip() {
    let mut p = pallet();
    assert_eq!(p.add_invalid_file(5, b"x".to_vec()), Ok(()));
    assert_eq!(invalid(&p, 5), vec![b"x".to_vec()]);
    assert_eq!(p.clear_invalid_file(Origin::Signed(5), b"x".to_vec()), Ok(()));
    assert_eq!(invalid(&p, 5), Vec::<Vec<u8>>::new());
    assert!(matches!(p.events.last(), Some(Event::ClearInvalidFile { acc: 5, .. })));
}

#[test]
fn invalid_data_limits() {
    let mut p = Pallet::new(2, 64, 100, *b"filbank/");
    assert_eq!(p.add_invalid_file(5, b"xyz".to_vec()), err(Error::BoundedVecError));
    assert_eq!(p.add_invalid_file(5, b"a".to_vec()), Ok(()));
    assert_eq!(p.add_invalid_file(5, b"b".to_vec()), Ok(()));
    assert_eq!(p.add_invalid_file(5, b"c".to_vec()), err(Error::StorageLimitReached));
    assert_eq!(p.clear_invalid_file(Origin::Signed(5), b"xyz".to_vec()), err(Error::BoundedVecError));
    assert_eq!(p.clear_invalid_file(Origin::Root, b"a".to_vec()), Err(DispatchError::BadOrigin));
}

/// User 1 stores the file `h1` in two slices at miner 5, whose first four
/// fillers of six make room for them.
fn stored_file(p: &mut Pallet, e: &mut Env) {
    p.buy_package(e, Origin::Signed(1), 1, 0).unwrap();
    let fillers: Vec<FillerInfo> = (1..7u8).map(|i| filler(&[b'f', b'0' + i], 4)).collect();
    p.upload_filler(e, Origin::Signed(9), 5, &fillers).unwrap();
    p.upload_declaration(Origin::Signed(1), b"h1".to_vec(), b"n1".to_vec()).unwrap();
    p.upload(e, Origin::Signed(9), b"h1".to_vec(), 1000, vec![slice(b"h1:s01", 5), slice(b"h1:s02", 5)], 1).unwrap();
}

#[test]
fn lost_shard_goes_to_the_current_scheduler() {
    let mut p = pallet();
    let mut e = env(0);
    stored_file(&mut p, &mut e);
    e.author = Some(3);
    assert_eq!(p.add_recovery_file(&e, b"h1:s01".to_vec()), Ok(()));
    assert_eq!(recovery(&p, 1003), vec![b"h1:s01".to_vec()]);
    let f = p.file.get(&b"h1".to_vec()).unwrap();
    assert_eq!(f.slice_info.len(), 1);
    assert_eq!(f.slice_info[0].shard_id, b"h1:s02".to_vec());
    e.author = None;
    assert_eq!(p.add_recovery_file(&e, b"h1:s02".to_vec()), Ok(()));
    assert_eq!(recovery(&p, 9), vec![b"h1:s02".to_vec()]);
}

#[test]
fn add_recovery_file_errors() {
    let mut p = pallet();
    let mut e = env(0);
    assert_eq!(p.add_recovery_file(&e, b"abc".to_vec()), err(Error::Overflow));
    assert_eq!(p.add_recovery_file(&e, b"h9s1".to_vec()), err(Error::FileNonExistent));
    e.first = Err(DispatchError::Other(7));
    assert_eq!(p.add_recovery_file(&e, b"h9s1".to_vec()), Err(DispatchError::Other(7)));
}

#[test]
fn recovered_shard_joins_the_file() {
    let mut p = pallet();
    let mut e = env(0);
    stored_file(&mut p, &mut e);
    p.add_recovery_file(&e, b"h1:s01".to_vec()).unwrap();
    assert_eq!(recovery(&p, 9), vec![b"h1:s01".to_vec()]);
    assert_eq!(p.recover_file(&mut e, Origin::Signed(9), b"h1:s01".to_vec(), slice(b"h1:s01", 6), true), Ok(()));
    assert_eq!(recovery(&p, 9), Vec::<Vec<u8>>::new());
    let f = p.file.get(&b"h1".to_vec()).unwrap();
    assert_eq!(f.slice_info.len(), 2);
    assert_eq!(f.slice_info[1].miner_acc, 6);
    assert!(matches!(p.events.last(), Some(Event::RecoverFile { acc: 9, .. })));
}

#[test]
fn unrecoverable_shard_clears_the_file() {
    let mut p = pallet();
    let mut e = env(0);
    stored_file(&mut p, &mut e);
    assert_eq!(p.recover_file(&mut e, Origin::Signed(9), b"h1:s01".to_vec(), slice(b"h1:s01", 6), false), Ok(()));
    assert!(p.file.get(&b"h1".to_vec()).is_none());
    assert!(p.file_keys_map.get(&1).is_none());
    assert_eq!(package(&p, 1).unwrap().used_space, 0);
    assert_eq!(
        invalid(&p, 5),
        vec![b"f1".to_vec(), b"f2".to_vec(), b"f3".to_vec(), b"f4".to_vec(), b"h1:s01".to_vec(), b"h1:s02".to_vec()]
    );
    assert_eq!(e.space_taken, vec![(5, 8 * M_BYTE), (5, 8 * M_BYTE)]);
    assert_eq!(p.recover_file(&mut e, Origin::Signed(9), b"abc".to_vec(), slice(b"x", 6), true), err(Error::Overflow));
    assert_eq!(p.recover_file(&mut e, Origin::Signed(9), b"h1:s01".to_vec(), slice(b"x", 6), true), err(Error::FileNonExistent));
}

#[test]
fn clear_file_of_an_unknown_hash() {
    let mut p = pallet();
    let mut e = env(0);
    assert_eq!(p.clear_file(&mut e, b"h1".to_vec()), err(Error::FileNonExistent));
}

#[test]
fn expired_files_are_cleared() {
    let mut p = pallet();
    let mut e = env(0);
    stored_file(&mut p, &mut e);
    p.upload_declaration(Origin::Signed(1), b"h2".to_vec(), b"n2".to_vec()).unwrap();
    p.upload(&mut e, Origin::Signed(9), b"h2".to_vec(), 500, Vec::new(), 1).unwrap();
    assert_eq!(held(&p, 1).len(), 2);
    assert_eq!(p.clear_expired_file(&mut e, 1), Ok(()));
    assert_eq!(held(&p, 1), Vec::<(Vec<u8>, u64)>::new());
    assert_eq!(p.file.len(), 0);
    assert_eq!(package(&p, 1).unwrap().used_space, 0);
    assert_eq!(p.clear_expired_file(&mut e, 2), err(Error::Overflow));
}

// ----------------------------------------------------------------- fillers

#[test]
fn uploaded_fillers_get_the_next_indexes() {
    let mut p = pallet();
    let mut e = env(0);
    let list = vec![filler(b"a", 4), filler(b"b", 4), filler(b"c", 4)];
    assert_eq!(p.upload_filler(&mut e, Origin::Signed(9), 5, &list), Ok(()));
    assert_eq!(p.filler_index_count, 3);
    for (i, id) in [b"a", b"b", b"c"].iter().enumerate() {
        let index = i as u32 + 1;
        let key = p.filler_keys_map.get(&index).unwrap();
        assert_eq!((key.miner, key.filler_id.clone()), (5, id.to_vec()));
        assert_eq!(p.filler_map.get(&(5, id.to_vec())).unwrap().index, index);
    }
    assert_eq!(e.power_added, vec![(5, 24 * M_BYTE)]);
    assert!(matches!(p.events.last(), Some(Event::FillerUpload { acc: 9, file_size }) if *file_size == 24 * 1_048_576));
}

#[test]
fn upload_filler_errors() {
    let mut p = pallet();
    let mut e = env(0);
    let many: Vec<FillerInfo> = (0..11u8).map(|i| filler(&[i], 4)).collect();
    assert_eq!(p.upload_filler(&mut e, Origin::Signed(9), 5, &many), err(Error::LengthExceedsLimit));
    assert_eq!(p.upload_filler(&mut e, Origin::Signed(8), 5, &vec![filler(b"a", 4)]), err(Error::ScheduleNonExistent));
    assert_eq!(p.upload_filler(&mut e, Origin::Signed(9), 7, &vec![filler(b"a", 4)]), err(Error::NotQualified));
    assert_eq!(p.upload_filler(&mut e, Origin::Signed(9), 404, &vec![filler(b"a", 4)]), Err(DispatchError::Other(4)));
    assert_eq!(p.upload_filler(&mut e, Origin::Root, 5, &vec![filler(b"a", 4)]), Err(DispatchError::BadOrigin));
    assert_eq!(p.filler_map.len(), 0);
}

#[test]
fn duplicate_filler_stops_the_upload() {
    let mut p = pallet();
    let mut e = env(0);
    let list = vec![filler(b"a", 4), filler(b"a", 4)];
    assert_eq!(p.upload_filler(&mut e, Origin::Signed(9), 5, &list), err(Error::FileExistent));
    assert_eq!(p.filler_map.get(&(5, b"a".to_vec())).unwrap().index, 1);
    assert_eq!(p.filler_index_count, 0);
    assert!(e.power_added.is_empty());
}

#[test]
fn delete_filler_removes_its_index() {
    let mut p = pallet();
    let mut e = env(0);
    p.upload_filler(&mut e, Origin::Signed(9), 5, &vec![filler(b"a", 4), filler(b"b", 4)]).unwrap();
    assert_eq!(p.delete_filler(5, b"a".to_vec()), Ok(()));
    assert!(p.filler_map.get(&(5, b"a".to_vec())).is_none());
    assert!(p.filler_keys_map.get(&1).is_none());
    assert!(p.filler_keys_map.get(&2).is_some());
    assert_eq!(p.delete_filler(5, b"a".to_vec()), err(Error::FileNonExistent));
    assert_eq!(p.delete_filler(5, vec![0; 65]), err(Error::BoundedVecError));
}

#[test]
fn delete_miner_all_filler_keeps_other_miners() {
    let mut p = pallet();
    let mut e = env(0);
    p.upload_filler(&mut e, Origin::Signed(9), 5, &vec![filler(b"a", 4), filler(b"b", 4)]).unwrap();
    p.upload_filler(&mut e, Origin::Signed(9), 6, &vec![filler(b"c", 4)]).unwrap();
    assert_eq!(p.delete_miner_all_filler(5), Ok(()));
    assert_eq!(p.filler_map.len(), 1);
    assert!(p.filler_map.get(&(6, b"c".to_vec())).is_some());
    assert_eq!(p.filler_keys_map.len(), 1);
    assert!(p.filler_keys_map.get(&3).is_some());
}

#[test]
fn the_file_list_services_act_on_the_pallet() {
    let mut p = pallet();
    let mut e = env(0);
    p.add_member(Origin::Root, 4).unwrap();
    assert!(RandomFileList::<Env>::contains_member(&p, 4));
    assert!(!RandomFileList::<Env>::contains_member(&p, 5));
    p.upload_filler(&mut e, Origin::Signed(9), 5, &vec![filler(b"a", 4)]).unwrap();
    assert_eq!(RandomFileList::<Env>::delete_filler(&mut p, 5, b"a".to_vec()), Ok(()));
    assert_eq!(RandomFileList::<Env>::add_invalid_file(&mut p, 5, b"x".to_vec()), Ok(()));
    assert_eq!(invalid(&p, 5), vec![b"x".to_vec()]);
    assert_eq!(RandomFileList::<Env>::clear_file(&mut p, &mut e, b"h".to_vec()), err(Error::FileNonExistent));
}

// ----------------------------------------------------------------- members

#[test]
fn members_come_and_go() {
    let mut p = pallet();
    assert_eq!(p.add_member(Origin::Root, 4), Ok(()));
    assert!(p.contains_member(4));
    assert_eq!(p.add_member(Origin::Root, 4), err(Error::AlreadyExist));
    assert_eq!(p.add_member(Origin::Signed(1), 5), Err(DispatchError::BadOrigin));
    assert_eq!(p.add_member(Origin::Root, 5), Ok(()));
    assert_eq!(p.del_member(Origin::Root, 4), Ok(()));
    assert!(!p.contains_member(4));
    assert!(p.contains_member(5));
    assert_eq!(p.del_member(Origin::Signed(1), 5), Err(DispatchError::BadOrigin));
    assert_eq!(p.members, vec![5]);
}

#[test]
fn members_are_bounded() {
    let mut p = Pallet::new(2, 64, 100, *b"filbank/");
    p.add_member(Origin::Root, 1).unwrap();
    p.add_member(Origin::Root, 2).unwrap();
    assert_eq!(p.add_member(Origin::Root, 3), err(Error::StorageLimitReached));
}

#[test]
fn small_queries() {
    let mut p = pallet();
    let mut e = env(42);
    assert_eq!(p.update_price_for_tests(), Ok(()));
    assert_eq!(p.unit_price, 100);
    assert_eq!(file_bank::member::current_block_number(&e), 42);
    p.upload_filler(&mut e, Origin::Signed(9), 5, &vec![filler(b"a", 4)]).unwrap();
    p.upload_declaration(Origin::Signed(1), b"h1".to_vec(), b"n1".to_vec()).unwrap();
    assert_eq!(p.get_fillermap_length(), Ok(1));
    assert_eq!(p.get_file_map_length(), Ok(1));
    assert!(p.judge_filler_exist(1));
    assert!(!p.judge_filler_exist(2));
    assert!(!p.judge_file_exist(1));
}

// -------------------------------------------------------------- randomness

#[test]
fn random_number_reads_four_bytes() {
    assert_eq!(file_bank::random::random_number_of(&vec![1, 2, 0, 0, 9]), 0x0201);
    assert_eq!(file_bank::random::random_number_of(&vec![1, 2, 3]), 0);
}

#[test]
fn random_number_skips_zero_draws() {
    let p = pallet();
    let mut e = env(0);
    e.randomness = Randomness::ZeroOnEven;
    assert_eq!(p.generate_random_number(&e, 4), Ok(5));
    assert_eq!(p.generate_random_number(&e, 0x0102_0301), Ok(0x0102_0301));
}

#[test]
fn random_number_list_is_sorted_and_drawn_from_indexes() {
    let mut p = pallet();
    let mut e = env(0);
    assert_eq!(p.get_random_numberlist(&e, 0, 1, 0), Ok(Vec::new()));
    let list: Vec<FillerInfo> = (0..10u8).map(|i| filler(&[i], 4)).collect();
    p.upload_filler(&mut e, Origin::Signed(9), 5, &list).unwrap();
    let drawn = p.get_random_numberlist(&e, 10, 1, 10).unwrap();
    assert_eq!(drawn.len(), 1);
    assert!(p.judge_filler_exist(drawn[0]));
    let drawn = p.get_random_numberlist(&e, 100, 3, 50).unwrap();
    assert_eq!(drawn.len(), 5);
    assert!(drawn.windows(2).all(|w| w[0] < w[1]));
    assert!(drawn.iter().all(|x| *x < 50));
}

#[test]
fn nothing_indexed_nothing_drawn() {
    let p = pallet();
    let e = env(0);
    assert!(p.get_random_filler(&e).unwrap().is_empty());
    assert!(p.get_random_file(&e).unwrap().is_empty());
    assert!(p.get_random_challenge_data(&e).unwrap().is_empty());
}

#[test]
fn drawn_fillers_are_what_their_indexes_lead_to() {
    let mut p = pallet();
    let mut e = env(0);
    let list: Vec<FillerInfo> = (0..10u8).map(|i| filler(&[i], 4)).collect();
    p.upload_filler(&mut e, Origin::Signed(9), 5, &list).unwrap();
    let drawn = p.get_random_filler(&e).unwrap();
    assert_eq!(drawn.len(), 1);
    let key = p.filler_keys_map.get(&drawn[0].index).unwrap();
    assert_eq!((key.miner, key.filler_id.clone()), (5, drawn[0].filler_id.clone()));
}

#[test]
fn challenges_cover_fillers_and_files() {
    let mut p = pallet();
    let mut e = env(0);
    stored_file(&mut p, &mut e);
    p.upload_declaration(Origin::Signed(1), b"h2".to_vec(), b"n2".to_vec()).unwrap();
    let data = p.get_random_challenge_data(&e).unwrap();
    assert!(!data.is_empty());
    for (miner, id, blocks, size, kind) in data.iter() {
        assert_eq!(*miner, 5);
        assert_eq!(*size, 8 * 1_048_576);
        assert_eq!(blocks.len(), 1);
        match kind {
            1 => {
                assert_eq!(id.clone(), b"f5".to_vec());
                assert!(blocks[0] >= 1 && blocks[0] <= 4);
            },
            2 => {
                assert!(id.clone() == b"h1:s01".to_vec() || id.clone() == b"h1:s02".to_vec());
                assert!(blocks[0] >= 1 && blocks[0] <= 10);
            },
            _ => panic!("unknown kind"),
        }
    }
    assert!(data.iter().any(|c| c.4 == 2));
    e.miner_id = 1;
    let data = p.get_random_challenge_data(&e).unwrap();
    assert!(data.iter().all(|c| c.4 == 1));
}

// ------------------------------------------------------------------- hooks

#[test]
fn daily_check_freezes_lapsed_leases() {
    let mut p = pallet();
    let mut e = env(10);
    p.buy_package(&mut e, Origin::Signed(7), 2, 0).unwrap();
    let w = p.on_initialize(&mut e, 3050);
    assert_eq!((w.ref_time, w.proof_size), (0, 0));
    assert_eq!(package(&p, 7).unwrap().state, PackageState::Normal);
    p.on_initialize(&mut e, 3000);
    assert_eq!(package(&p, 7).unwrap().state, PackageState::Normal);
    p.on_initialize(&mut e, 3100);
    assert_eq!(package(&p, 7).unwrap().state, PackageState::Frozen);
}

#[test]
fn daily_check_clears_files_after_grace() {
    let mut p = pallet();
    let mut e = env(0);
    stored_file(&mut p, &mut e);
    p.on_initialize(&mut e, 3100);
    assert_eq!(package(&p, 1).unwrap().used_space, 0);
    assert!(p.file.get(&b"h1".to_vec()).is_none());
    assert_eq!(held(&p, 1), Vec::<(Vec<u8>, u64)>::new());
}

#[test]
fn daily_check_records_runtime_changes() {
    let mut p = pallet();
    let mut e = env(0);
    stored_file(&mut p, &mut e);
    let space = package(&p, 1).unwrap().space;
    let before = e.effects.clone();
    p.on_initialize(&mut e, 3050);
    assert_eq!(e.effects, before);
    p.on_initialize(&mut e, 3100);
    let mut expected = before.clone();
    expected.push(Effect::SubPurchasedSpace(space));
    expected.push(Effect::SubSpace(5, 8 * M_BYTE));
    expected.push(Effect::SubSpace(5, 8 * M_BYTE));
    assert_eq!(e.effects, expected);
}

#[test]
fn frozen_lease_keeps_files_and_runtime() {
    let mut p = pallet();
    let mut e = env(0);
    p.buy_package(&mut e, Origin::Signed(1), 2, 0).unwrap();
    p.upload_declaration(Origin::Signed(1), b"h1".to_vec(), b"n1".to_vec()).unwrap();
    p.upload(&mut e, Origin::Signed(9), b"h1".to_vec(), 1000, Vec::new(), 1).unwrap();
    let held_before = held(&p, 1);
    let before = e.effects.clone();
    p.on_initialize(&mut e, 3100);
    assert_eq!(package(&p, 1).unwrap().state, PackageState::Frozen);
    assert_eq!(held(&p, 1), held_before);
    assert!(p.file.get(&b"h1".to_vec()).is_some());
    assert_eq!(e.effects, before);
}

#[test]
fn last_user_leaving_clears_the_file_at_the_miners() {
    let mut p = pallet();
    let mut e = env(0);
    stored_file(&mut p, &mut e);
    let before = e.effects.clone();
    assert_eq!(p.delete_file(&mut e, Origin::Signed(1), b"h1".to_vec()), Ok(()));
    let mut expected = before.clone();
    expected.push(Effect::SubSpace(5, 8 * M_BYTE));
    expected.push(Effect::SubSpace(5, 8 * M_BYTE));
    assert_eq!(e.effects, expected);
}

#[test]
fn drawing_follows_the_seeds_from_the_block_number() {
    let p = pallet();
    let mut e = env(0);
    e.randomness = Randomness::ZeroOnEven;
    assert_eq!(p.get_random_numberlist(&e, 10, 3, 10), Ok(vec![1]));
    assert_eq!(p.get_random_numberlist(&e, 100, 3, 50), Ok(vec![1, 3, 5, 7, 9]));
    let mut later = env(4);
    later.randomness = Randomness::ZeroOnEven;
    assert_eq!(p.get_random_numberlist(&later, 10, 3, 10), Ok(vec![5]));
}

#[test]
fn challenges_repeat_on_the_same_runtime() {
    let mut p = pallet();
    let mut e = env(0);
    stored_file(&mut p, &mut e);
    p.upload_declaration(Origin::Signed(1), b"h2".to_vec(), b"n2".to_vec()).unwrap();
    let first = p.get_random_challenge_data(&e).unwrap();
    assert!(!first.is_empty());
    let other = env(e.now);
    let second = p.get_random_challenge_data(&other).unwrap();
    assert_eq!(first, second);
}

#[test]
fn a_second_purchase_is_refused_whatever_its_count() {
    let mut p = pallet();
    let mut e = env(0);
    p.buy_package(&mut e, Origin::Signed(7), 1, 0).unwrap();
    assert_eq!(p.buy_package(&mut e, Origin::Signed(7), 5, u128::MAX), err(Error::PurchasedPackage));
}

#[test]
fn upgrade_checks_come_before_the_space_of_the_count() {
    let mut p = pallet();
    let mut e = env(0);
    assert_eq!(p.upgrade_package(&mut e, Origin::Signed(8), 5, u128::MAX), err(Error::NotPurchasedPackage));
    p.buy_package(&mut e, Origin::Signed(7), 3, 0).unwrap();
    e.now = 5000;
    assert_eq!(p.upgrade_package(&mut e, Origin::Signed(7), 5, u128::MAX), err(Error::LeaseExpired));
}

#[test]
fn expired_owner_leaves_shared_files_to_the_others() {
    let mut p = pallet();
    let mut e = env(0);
    p.buy_package(&mut e, Origin::Signed(1), 1, 0).unwrap();
    p.buy_package(&mut e, Origin::Signed(2), 1, 0).unwrap();
    p.upload_declaration(Origin::Signed(1), b"h1".to_vec(), b"n1".to_vec()).unwrap();
    p.upload_declaration(Origin::Signed(2), b"h1".to_vec(), b"n2".to_vec()).unwrap();
    p.upload(&mut e, Origin::Signed(9), b"h1".to_vec(), 500, Vec::new(), 1).unwrap();
    let before = e.effects.clone();
    assert_eq!(p.clear_expired_file(&mut e, 1), Ok(()));
    assert_eq!(held(&p, 1), Vec::<(Vec<u8>, u64)>::new());
    assert_eq!(p.file.get(&b"h1".to_vec()).unwrap().user, vec![2]);
    assert_eq!(e.effects, before);
}
