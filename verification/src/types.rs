//! The records that the file bank keeps, the errors it returns and the events
//! it deposits.
use vstd::prelude::*;
use crate::bytes::bytes_list;

verus! {

/// An account of the chain.
pub type AccountId = u64;

/// A block height.
pub type BlockNumber = u32;

/// An amount of the chain's currency.
pub type Balance = u128;

/// Who dispatched a call.
#[derive(Clone, Copy, PartialEq, Eq, Structural, Debug)]
pub enum Origin {
    Root,
    Signed(AccountId),
    Unsigned,
}

/// Lifecycle of a declared file.
#[derive(Clone, Copy, PartialEq, Eq, Structural, Debug)]
pub enum FileState {
    /// Declared, its slices not stored yet.
    Pending,
    /// Stored by the miners.
    Active,
}

/// Whether a storage package can still be used.
#[derive(Clone, Copy, PartialEq, Eq, Structural, Debug)]
pub enum PackageState {
    Normal,
    Frozen,
}

/// Where one slice of a file is stored.
#[derive(Debug)]
pub struct SliceInfo {
    pub miner_id: u64,
    pub shard_size: u64,
    pub block_num: u32,
    pub shard_id: Vec<u8>,
    pub miner_ip: Vec<u8>,
    pub miner_acc: AccountId,
}

pub ghost struct SliceInfoView {
    pub miner_id: u64,
    pub shard_size: u64,
    pub block_num: u32,
    pub shard_id: Seq<u8>,
    pub miner_ip: Seq<u8>,
    pub miner_acc: AccountId,
}

impl View for SliceInfo {
    type V = SliceInfoView;

    open spec fn view(&self) -> SliceInfoView {
        SliceInfoView {
            miner_id: self.miner_id,
            shard_size: self.shard_size,
            block_num: self.block_num,
            shard_id: self.shard_id@,
            miner_ip: self.miner_ip@,
            miner_acc: self.miner_acc,
        }
    }
}

/// The views of a list of slices.
pub open spec fn slice_list(l: Seq<SliceInfo>) -> Seq<SliceInfoView> {
    l.map_values(|s: SliceInfo| s@)
}

/// A file that users declared, and where its slices are.
///
/// `user[i]` declared the file under the name `file_name[i]`.
#[derive(Debug)]
pub struct FileInfo {
    pub file_size: u64,
    /// Its key in the file index.
    pub index: u32,
    pub file_state: FileState,
    pub user: Vec<AccountId>,
    pub file_name: Vec<Vec<u8>>,
    pub slice_info: Vec<SliceInfo>,
}

pub ghost struct FileInfoView {
    pub file_size: u64,
    pub index: u32,
    pub file_state: FileState,
    pub user: Seq<AccountId>,
    pub file_name: Seq<Seq<u8>>,
    pub slice_info: Seq<SliceInfoView>,
}

impl View for FileInfo {
    type V = FileInfoView;

    open spec fn view(&self) -> FileInfoView {
        FileInfoView {
            file_size: self.file_size,
            index: self.index,
            file_state: self.file_state,
            user: self.user@,
            file_name: bytes_list(self.file_name@),
            slice_info: slice_list(self.slice_info@),
        }
    }
}

/// A piece of filler data that a miner stores to prove idle space.
#[derive(Debug)]
pub struct FillerInfo {
    /// Its key in the filler index.
    pub index: u32,
    pub filler_size: u64,
    pub block_num: u32,
    pub segment_size: u32,
    pub miner_address: AccountId,
    pub filler_id: Vec<u8>,
    pub filler_hash: Vec<u8>,
}

pub ghost struct FillerInfoView {
    pub index: u32,
    pub filler_size: u64,
    pub block_num: u32,
    pub segment_size: u32,
    pub miner_address: AccountId,
    pub filler_id: Seq<u8>,
    pub filler_hash: Seq<u8>,
}

impl View for FillerInfo {
    type V = FillerInfoView;

    open spec fn view(&self) -> FillerInfoView {
        FillerInfoView {
            index: self.index,
            filler_size: self.filler_size,
            block_num: self.block_num,
            segment_size: self.segment_size,
            miner_address: self.miner_address,
            filler_id: self.filler_id@,
            filler_hash: self.filler_hash@,
        }
    }
}

/// The storage package that a user bought.
#[derive(Clone, Copy, PartialEq, Eq, Structural, Debug)]
pub struct PackageDetails {
    pub space: u128,
    pub used_space: u128,
    pub remaining_space: u128,
    /// Months bought.
    pub tenancy: u32,
    pub package_type: u8,
    pub start: BlockNumber,
    pub deadline: BlockNumber,
    pub state: PackageState,
}

impl View for PackageDetails {
    type V = PackageDetails;

    open spec fn view(&self) -> PackageDetails {
        *self
    }
}

/// A file that a user holds, with its size.
#[derive(Debug)]
pub struct UserFileSliceInfo {
    pub file_hash: Vec<u8>,
    pub file_size: u64,
}

pub ghost struct UserFileSliceInfoView {
    pub file_hash: Seq<u8>,
    pub file_size: u64,
}

impl View for UserFileSliceInfo {
    type V = UserFileSliceInfoView;

    open spec fn view(&self) -> UserFileSliceInfoView {
        UserFileSliceInfoView { file_hash: self.file_hash@, file_size: self.file_size }
    }
}

/// The views of a list of held files.
pub open spec fn held_list(l: Seq<UserFileSliceInfo>) -> Seq<UserFileSliceInfoView> {
    l.map_values(|s: UserFileSliceInfo| s@)
}

/// One index of filler data: the miner and the filler's id.
pub struct FillerKey {
    pub miner: AccountId,
    pub filler_id: Vec<u8>,
}

impl View for FillerKey {
    type V = (AccountId, Seq<u8>);

    open spec fn view(&self) -> (AccountId, Seq<u8>) {
        (self.miner, self.filler_id@)
    }
}

/// One index of a file: whether it is stored, and its hash.
pub struct FileKey {
    pub active: bool,
    pub file_hash: Vec<u8>,
}

impl View for FileKey {
    type V = (bool, Seq<u8>);

    open spec fn view(&self) -> (bool, Seq<u8>) {
        (self.active, self.file_hash@)
    }
}

/// A list of byte strings kept under an account.
pub struct ByteList {
    pub items: Vec<Vec<u8>>,
}

impl View for ByteList {
    type V = Seq<Seq<u8>>;

    open spec fn view(&self) -> Seq<Seq<u8>> {
        bytes_list(self.items@)
    }
}

/// The files that a user holds.
pub struct HeldFiles {
    pub items: Vec<UserFileSliceInfo>,
}

impl View for HeldFiles {
    type V = Seq<UserFileSliceInfoView>;

    open spec fn view(&self) -> Seq<UserFileSliceInfoView> {
        held_list(self.items@)
    }
}

/// Space that a user bought, used and has left.
#[derive(Clone, Copy, PartialEq, Eq, Structural, Debug)]
pub struct StorageSpace {
    pub purchased_space: u128,
    pub used_space: u128,
    pub remaining_space: u128,
}

/// An amount of space and the block until which it is leased.
#[derive(Clone, Copy, PartialEq, Eq, Structural, Debug)]
pub struct SpaceInfo {
    pub size: u128,
    pub deadline: BlockNumber,
}

/// A slice of a file as the peers that hold it report it.
#[derive(Debug)]
pub struct FileSlice {
    pub peer_id: Vec<Vec<u8>>,
    pub fill_zero: u32,
    pub slice_id: u64,
}

/// Where the shards of a slice are.
#[derive(Debug)]
pub struct FileShardInfo {
    pub data_shard_num: u8,
    pub redun_shard_num: u8,
    pub shard_hash: Vec<Vec<u8>>,
    pub shard_addr: Vec<Vec<u8>>,
    pub wallet_addr: Vec<AccountId>,
}

/// A slice of a backup of a file.
#[derive(Debug)]
pub struct FileSliceInfo {
    pub slice_id: Vec<u8>,
    pub slice_size: u16,
    pub slice_hash: Vec<u8>,
    pub file_shard: FileShardInfo,
}

/// A backup of a file.
#[derive(Debug)]
pub struct FileDuplicateInfo {
    pub dupl_id: Vec<u8>,
    pub rand_key: Vec<u8>,
    pub slice_num: u16,
    pub file_slice: Vec<FileSliceInfo>,
}

/// The errors of the file bank.
#[derive(Clone, Copy, PartialEq, Eq, Structural, Debug)]
pub enum Error {
    FileExistent,
    /// The file does not exist.
    FileNonExistent,
    /// An arithmetic overflow.
    Overflow,
    /// The user's package has not enough space left for the file.
    InsufficientStorage,
    /// A call with arguments that it does not take.
    WrongOperation,
    /// The user has not bought a package.
    NotPurchasedPackage,
    PurchasedPackage,
    /// The package's lease is over.
    LeaseExpired,
    LeaseFreeze,
    /// More than the user expected to pay.
    ExceedExpectations,
    ConversionError,
    InsufficientAvailableSpace,
    AlreadyRepair,
    NotOwner,
    AlreadyReceive,
    AlreadyExist,
    NotQualified,
    UserNotDeclared,
    /// No local account to sign with.
    NoLocalAcctForSigning,
    /// The caller is not a scheduler.
    ScheduleNonExistent,
    /// A list or string longer than its bound.
    BoundedVecError,
    /// A bounded list is full.
    StorageLimitReached,
    /// The miner has not enough power left to hold the file.
    MinerPowerInsufficient,
    IsZero,
    Locked,
    LengthExceedsLimit,
    Declarated,
    BugInvalid,
}

/// Why a call failed.
#[derive(Clone, Copy, PartialEq, Eq, Structural, Debug)]
pub enum DispatchError {
    /// The call came from an origin that may not make it.
    BadOrigin,
    /// An error of the file bank.
    Module(Error),
    /// An error of another part of the runtime, by its code.
    Other(u32),
}

/// What a call gives back.
pub type DispatchResult = Result<(), DispatchError>;

/// The events of the file bank.
#[derive(Debug)]
pub enum Event {
    UploadDeclaration { acc: AccountId, file_hash: Vec<u8>, file_name: Vec<u8> },
    FileUpload { acc: AccountId },
    FileUpdate { acc: AccountId, fileid: Vec<u8> },
    FileChangeState { acc: AccountId, fileid: Vec<u8> },
    InsertFileSlice { fileid: Vec<u8> },
    BuyPackage { acc: AccountId, size: u128, fee: Balance },
    PackageUpgrade { acc: AccountId, old_type: u8, new_type: u8, fee: Balance },
    PackageRenewal { acc: AccountId, package_type: u8, fee: Balance },
    LeaseExpired { acc: AccountId, size: u128 },
    LeaseExpireIn24Hours { acc: AccountId, size: u128 },
    DeleteFile { acc: AccountId, fileid: Vec<u8> },
    FillerUpload { acc: AccountId, file_size: u64 },
    RecoverFile { acc: AccountId, file_hash: Vec<u8> },
    ClearInvalidFile { acc: AccountId, file_hash: Vec<u8> },
    ReceiveSpace { acc: AccountId },
}

pub ghost enum EventView {
    UploadDeclaration { acc: AccountId, file_hash: Seq<u8>, file_name: Seq<u8> },
    FileUpload { acc: AccountId },
    FileUpdate { acc: AccountId, fileid: Seq<u8> },
    FileChangeState { acc: AccountId, fileid: Seq<u8> },
    InsertFileSlice { fileid: Seq<u8> },
    BuyPackage { acc: AccountId, size: u128, fee: Balance },
    PackageUpgrade { acc: AccountId, old_type: u8, new_type: u8, fee: Balance },
    PackageRenewal { acc: AccountId, package_type: u8, fee: Balance },
    LeaseExpired { acc: AccountId, size: u128 },
    LeaseExpireIn24Hours { acc: AccountId, size: u128 },
    DeleteFile { acc: AccountId, fileid: Seq<u8> },
    FillerUpload { acc: AccountId, file_size: u64 },
    RecoverFile { acc: AccountId, file_hash: Seq<u8> },
    ClearInvalidFile { acc: AccountId, file_hash: Seq<u8> },
    ReceiveSpace { acc: AccountId },
}

impl View for Event {
    type V = EventView;

    open spec fn view(&self) -> EventView {
        match self {
            Event::UploadDeclaration { acc, file_hash, file_name } => EventView::UploadDeclaration {
                acc: *acc,
                file_hash: file_hash@,
                file_name: file_name@,
            },
            Event::FileUpload { acc } => EventView::FileUpload { acc: *acc },
            Event::FileUpdate { acc, fileid } => EventView::FileUpdate { acc: *acc, fileid: fileid@ },
            Event::FileChangeState { acc, fileid } => EventView::FileChangeState {
                acc: *acc,
                fileid: fileid@,
            },
            Event::InsertFileSlice { fileid } => EventView::InsertFileSlice { fileid: fileid@ },
            Event::BuyPackage { acc, size, fee } => EventView::BuyPackage {
                acc: *acc,
                size: *size,
                fee: *fee,
            },
            Event::PackageUpgrade { acc, old_type, new_type, fee } => EventView::PackageUpgrade {
                acc: *acc,
                old_type: *old_type,
                new_type: *new_type,
                fee: *fee,
            },
            Event::PackageRenewal { acc, package_type, fee } => EventView::PackageRenewal {
                acc: *acc,
                package_type: *package_type,
                fee: *fee,
            },
            Event::LeaseExpired { acc, size } => EventView::LeaseExpired { acc: *acc, size: *size },
            Event::LeaseExpireIn24Hours { acc, size } => EventView::LeaseExpireIn24Hours {
                acc: *acc,
                size: *size,
            },
            Event::DeleteFile { acc, fileid } => EventView::DeleteFile { acc: *acc, fileid: fileid@ },
            Event::FillerUpload { acc, file_size } => EventView::FillerUpload {
                acc: *acc,
                file_size: *file_size,
            },
            Event::RecoverFile { acc, file_hash } => EventView::RecoverFile {
                acc: *acc,
                file_hash: file_hash@,
            },
            Event::ClearInvalidFile { acc, file_hash } => EventView::ClearInvalidFile {
                acc: *acc,
                file_hash: file_hash@,
            },
            Event::ReceiveSpace { acc } => EventView::ReceiveSpace { acc: *acc },
        }
    }
}

/// The account that signed, or `BadOrigin`.
pub fn ensure_signed(origin: Origin) -> (r: Result<AccountId, DispatchError>)
    ensures
        r == match origin {
            Origin::Signed(a) => Ok::<AccountId, DispatchError>(a),
            _ => Err(DispatchError::BadOrigin),
        },
{
    match origin {
        Origin::Signed(a) => Ok(a),
        _ => Err(DispatchError::BadOrigin),
    }
}

/// `Ok` for the root origin, else `BadOrigin`.
pub fn ensure_root(origin: Origin) -> (r: DispatchResult)
    ensures
        r == if origin == Origin::Root {
            Ok::<(), DispatchError>(())
        } else {
            Err(DispatchError::BadOrigin)
        },
{
    match origin {
        Origin::Root => Ok(()),
        _ => Err(DispatchError::BadOrigin),
    }
}

/// A file bank error as a dispatch error.
pub open spec fn module_err(e: Error) -> Result<(), DispatchError> {
    Err(DispatchError::Module(e))
}

} // verus!
