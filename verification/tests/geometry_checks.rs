use tonk_core::geometry::{hex_twos_complement_to_i32, Cube};
use tonk_core::types::Location;
use tonk_core::errors::{GameError, JobError, RedisHelperError};

fn loc(q: &str, r: &str, s: &str) -> Location {
    Location("0x0000".to_string(), q.to_string(), r.to_string(), s.to_string())
}

#[test]
fn cube_new_reads_the_three_coordinate_fields() {
    let c = Cube::new(&loc("0x0002", "0x0003", "0xfffb"));
    assert_eq!((c.q, c.r, c.s), (2, 3, -5));
}

#[test]
fn decode_all_ones_is_minus_one() {
    assert_eq!(hex_twos_complement_to_i32("0xFFFF"), -1);
}

#[test]
fn decode_one_is_one() {
    assert_eq!(hex_twos_complement_to_i32("0x0001"), 1);
}

#[test]
fn decode_sign_boundaries() {
    assert_eq!(hex_twos_complement_to_i32("0x7fff"), 32767);
    assert_eq!(hex_twos_complement_to_i32("0x8000"), -32768);
    assert_eq!(hex_twos_complement_to_i32("0x0000"), 0);
}

#[test]
fn decode_without_prefix() {
    assert_eq!(hex_twos_complement_to_i32("7fff"), 32767);
    assert_eq!(hex_twos_complement_to_i32("10"), 16);
}

#[test]
fn decode_garbage_is_max() {
    assert_eq!(hex_twos_complement_to_i32(""), i32::MAX);
    assert_eq!(hex_twos_complement_to_i32("0x"), i32::MAX);
    assert_eq!(hex_twos_complement_to_i32("xyz"), i32::MAX);
    assert_eq!(hex_twos_complement_to_i32("0x12345"), i32::MAX);
    assert_eq!(hex_twos_complement_to_i32("0x12g4"), i32::MAX);
}

#[test]
fn decode_leading_zeros_fit() {
    assert_eq!(hex_twos_complement_to_i32("0x000a"), 10);
    assert_eq!(hex_twos_complement_to_i32("0x00000a"), 10);
}

#[test]
fn cube_new_decodes_fields() {
    let c = Cube::new(&loc("0x0001", "0xFFFF", "0x0000"));
    assert_eq!(c.q, 1);
    assert_eq!(c.r, -1);
    assert_eq!(c.s, 0);
}

#[test]
fn distance_to_self_is_zero() {
    let a = Cube { q: 5, r: -3, s: -2 };
    assert_eq!(a.distance(&a), 0);
}

#[test]
fn distance_is_symmetric() {
    let a = Cube { q: 0, r: 0, s: 0 };
    let b = Cube { q: 2, r: -1, s: -1 };
    assert_eq!(a.distance(&b), b.distance(&a));
    assert_eq!(a.distance(&b), 2);
}

#[test]
fn add_and_subtract_are_componentwise() {
    let a = Cube { q: 1, r: 2, s: -3 };
    let b = Cube { q: -1, r: 1, s: 0 };
    let sum = a.add(&b);
    assert_eq!((sum.q, sum.r, sum.s), (0, 3, -3));
    let diff = a.subtract(&b);
    assert_eq!((diff.q, diff.r, diff.s), (2, 1, -3));
}

#[test]
fn error_messages() {
    assert_eq!(
        RedisHelperError::MissingKey.message(),
        "Error: object is missing from the state"
    );
    assert_eq!(RedisHelperError::RedisError.message(), "Error: redis error");
    assert_eq!(JobError::SerializationError.message(), "Error: serialization error");
    assert_eq!(JobError::ClientError.message(), "Error: client error");
    assert_eq!(JobError::Unknown.message(), "Error: unknown error");
}

#[test]
fn job_error_from_store_error() {
    assert_eq!(JobError::from(RedisHelperError::Deserialization), JobError::SerializationError);
    assert_eq!(JobError::from(RedisHelperError::Serialization), JobError::SerializationError);
    assert_eq!(JobError::from(RedisHelperError::MissingKey), JobError::Unknown);
    assert_eq!(JobError::from(RedisHelperError::RedisError), JobError::Unknown);
}

#[test]
fn game_error_variants_are_distinct() {
    assert_ne!(GameError::NotFound, GameError::PhaseViolation);
    assert_ne!(GameError::NotEligible, GameError::OutOfRange);
    assert_ne!(GameError::DuplicateSubmission, GameError::StoreFailure);
    assert_ne!(GameError::FeedFailure, GameError::NotFound);
}
