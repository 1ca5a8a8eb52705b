use file_bank::equivocation::RRSCEquivocationOffence;
use file_bank::pallet::{G_BYTE, KEY_TYPE, M_BYTE, T_BYTE};
use file_bank::perbill::{perbill_from_rational, perbill_square};
use file_bank::pricing::{fee_for, price_for_space};
use file_bank::random::{insert_sorted, sort_dedup};
use file_bank::scale::{decode_u32, encode_subject, encode_tag};
use file_bank::types::{DispatchError, Error, StorageSpace, FileSlice, SpaceInfo};
use file_bank::weights::{rocks_db, weight_of, RuntimeDbWeight, SubstrateWeight, Weight, WeightInfo};

#[test]
fn units_of_space() {
    assert_eq!(M_BYTE, 1 << 20);
    assert_eq!(G_BYTE, 1 << 30);
    assert_eq!(T_BYTE, 1 << 40);
    assert_eq!(&KEY_TYPE, b"cess");
}

#[test]
fn price_of_a_mebibyte() {
    assert_eq!(price_for_space(G_BYTE, T_BYTE), Ok(1_009_765_625_000_000));
    assert_eq!(price_for_space(500 * G_BYTE, T_BYTE), Ok(5_882_812_500_000_000));
    assert_eq!(price_for_space(T_BYTE, T_BYTE), Ok(11_000_000_000_000_000));
    assert_eq!(price_for_space(0, 5), Ok(1_000_000_000_000_000));
    assert_eq!(price_for_space(1, 0), Err(DispatchError::Module(Error::IsZero)));
    assert_eq!(price_for_space(u128::MAX / 1000, 1), Err(DispatchError::Module(Error::Overflow)));
}

#[test]
fn price_grows_with_space_and_falls_with_supply() {
    let a = price_for_space(G_BYTE, T_BYTE).unwrap();
    let b = price_for_space(2 * G_BYTE, T_BYTE).unwrap();
    let c = price_for_space(2 * G_BYTE, 2 * T_BYTE).unwrap();
    assert!(1_000_000_000_000_000 <= a && a <= b);
    assert!(c <= b);
}

#[test]
fn fee_counts_whole_gibibytes() {
    assert_eq!(fee_for(500 * G_BYTE, 5_882_812_500_000_000), Ok(2_872_467_041_015_500));
    assert_eq!(fee_for(G_BYTE - 1, 1 << 20), Ok(0));
    assert_eq!(fee_for(3 * G_BYTE, 2048), Ok(6));
    assert_eq!(fee_for(u128::MAX, u128::MAX), Err(DispatchError::Module(Error::Overflow)));
}

#[test]
fn slash_fraction_is_the_square_of_three_k_over_n() {
    assert_eq!(RRSCEquivocationOffence::<u64>::slash_fraction(1, 3), 1_000_000_000);
    assert_eq!(RRSCEquivocationOffence::<u64>::slash_fraction(2, 3), 1_000_000_000);
    assert_eq!(RRSCEquivocationOffence::<u64>::slash_fraction(0, 5), 0);
    assert_eq!(RRSCEquivocationOffence::<u64>::slash_fraction(1, 10), 90_000_000);
    assert_eq!(RRSCEquivocationOffence::<u64>::slash_fraction(1, 0), 1_000_000_000);
}

#[test]
fn perbill_parts() {
    assert_eq!(perbill_from_rational(1, 4), 250_000_000);
    assert_eq!(perbill_from_rational(5, 4), 1_000_000_000);
    assert_eq!(perbill_from_rational(1, 3), 333_333_333);
    assert_eq!(perbill_square(500_000_000), 250_000_000);
    assert_eq!(perbill_square(1_000_000_000), 1_000_000_000);
}

#[test]
fn scale_encodings() {
    assert_eq!(encode_subject(*b"filbank/", 0x0403_0201), b"filbank/\x01\x02\x03\x04".to_vec());
    assert_eq!(decode_u32(&vec![1, 2, 3, 4, 5]), Some(0x0403_0201));
    assert_eq!(decode_u32(&vec![1, 2, 3]), None);
    let tag = encode_tag(&b"ab".to_vec(), [7u8; 32], 0x0102);
    let mut expected = vec![8u8, b'a', b'b'];
    expected.extend_from_slice(&[7u8; 32]);
    expected.extend_from_slice(&[2, 1, 0, 0, 0, 0, 0, 0]);
    assert_eq!(tag, expected);
}

#[test]
fn sorting_drops_duplicates() {
    assert_eq!(sort_dedup(&vec![5, 1, 5, 3, 1]), vec![1, 3, 5]);
    assert_eq!(sort_dedup(&Vec::new()), Vec::<u32>::new());
    let mut v = vec![1, 4];
    insert_sorted(&mut v, 3);
    insert_sorted(&mut v, 4);
    insert_sorted(&mut v, 0);
    assert_eq!(v, vec![0, 1, 3, 4]);
}

#[test]
fn weights_from_benchmarks() {
    let w = SubstrateWeight { db: rocks_db() };
    assert_eq!(rocks_db(), RuntimeDbWeight { read: 25_000_000, write: 100_000_000 });
    assert_eq!(w.cert_idle_space(), Weight { ref_time: 1_795_990_000, proof_size: 0 });
    assert_eq!(w.upload_declaration(3), Weight { ref_time: 1_157_271_268, proof_size: 0 });
    assert_eq!(w.delete_file(2), Weight { ref_time: 1_253_557_327, proof_size: 0 });
    assert_eq!(w.transfer_report(u32::MAX), Weight { ref_time: 2_231_506_286_077_971, proof_size: 0 });
    assert_eq!(w.claim_restoral_order(), Weight { ref_time: 70_910_000 + 50_000_000 + 100_000_000, proof_size: 0 });
    assert_eq!(().create_bucket(), w.create_bucket());
    assert_eq!(().upload_declaration_expected_max(9), w.upload_declaration_expected_max(1));
}

#[test]
fn weights_saturate() {
    let db = RuntimeDbWeight { read: u64::MAX, write: 1 };
    assert_eq!(weight_of(db, 1, 0, 0, 2, 0), Weight { ref_time: u64::MAX, proof_size: 0 });
    assert_eq!(weight_of(db, 1, u64::MAX, 2, 0, 0), Weight { ref_time: u64::MAX, proof_size: 0 });
    assert_eq!(Weight::from_parts(3, 4).saturating_add(Weight::from_parts(u64::MAX, 1)), Weight { ref_time: u64::MAX, proof_size: 5 });
}

#[test]
fn plain_records() {
    let s = StorageSpace { purchased_space: 10, used_space: 4, remaining_space: 6 };
    assert_eq!(s.clone(), s);
    let i = SpaceInfo { size: 3, deadline: 9 };
    assert_eq!(i, SpaceInfo { size: 3, deadline: 9 });
    let f = FileSlice { peer_id: vec![b"p".to_vec()], fill_zero: 0, slice_id: 2 };
    assert_eq!(f.slice_id, 2);
}
