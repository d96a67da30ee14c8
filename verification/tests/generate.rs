use arbitrary::Unstructured;
use arbtest::arbtest;
use posix_portable_filename::generate::{choice_set, ChoiceSet};
use posix_portable_filename::PortableFilename;

#[test]
fn arbitrary_produces_valid_filenames() {
    arbtest(|u| {
        let _filename = PortableFilename::arbitrary(u)?;
        // If constructed, the filename is valid.
        Ok(())
    })
    .budget_ms(500);
}

#[test]
fn arbitrary_names_pass_validation_again() {
    arbtest(|u| {
        let name = PortableFilename::arbitrary(u)?;
        let again = PortableFilename::new(name.as_str()).unwrap();
        assert_eq!(again.as_str(), name.as_str());
        assert!(!name.is_empty() && name.len() <= PortableFilename::MAX_LEN);
        Ok(())
    })
    .budget_ms(300);
}

#[test]
fn arbitrary_from_no_data_is_one_letter() {
    // With no bytes left, the length is the range's start (1) and every
    // choice is the first allowed one: `A` once `.` and `-` are left out.
    let mut u = Unstructured::new(&[]);
    let name = PortableFilename::arbitrary(&mut u).unwrap();
    assert_eq!(name.as_str(), "A");
}

#[test]
fn arbitrary_follows_the_bytes() {
    // Length 1 + 4 % 255 = 5; first character index 0 ('.'), then indices
    // 1, 2, 3 ('A', 'B', 'C'), then the data runs out and index 0 ('.') is used.
    let data = [4u8, 0, 1, 2, 3];
    let mut u = Unstructured::new(&data);
    let name = PortableFilename::arbitrary(&mut u).unwrap();
    assert_eq!(name.as_str(), ".ABC.");
}

#[test]
fn arbitrary_two_characters_after_a_period() {
    // Length 1 + 1 = 2; first '.', then the second comes from the set without
    // '.', whose first element is 'A'.
    let data = [1u8, 0, 0];
    let mut u = Unstructured::new(&data);
    let name = PortableFilename::arbitrary(&mut u).unwrap();
    assert_eq!(name.as_str(), ".A");
}

#[test]
fn arbitrary_can_reach_the_maximum_length() {
    let data = [254u8];
    let mut u = Unstructured::new(&data);
    let name = PortableFilename::arbitrary(&mut u).unwrap();
    assert_eq!(name.len(), 255);
}

#[test]
fn size_hint_spans_the_lengths() {
    assert_eq!(PortableFilename::size_hint(0), (1, Some(255)));
    assert_eq!(PortableFilename::size_hint(7), (1, Some(PortableFilename::MAX_LEN)));
}

#[test]
fn choice_set_per_position() {
    assert_eq!(choice_set(1, 0, None), ChoiceSet::NoHyphenOrPeriod);
    assert_eq!(choice_set(2, 0, None), ChoiceSet::NoHyphen);
    assert_eq!(choice_set(255, 0, None), ChoiceSet::NoHyphen);
    assert_eq!(choice_set(2, 1, Some(b'.')), ChoiceSet::NoPeriod);
    assert_eq!(choice_set(2, 1, Some(b'a')), ChoiceSet::All);
    assert_eq!(choice_set(3, 1, Some(b'.')), ChoiceSet::All);
    assert_eq!(choice_set(3, 2, Some(b'.')), ChoiceSet::All);
}

#[test]
fn arbitrary_spells_a_chosen_name() {
    // Length byte 2 gives 1 + 2 % 255 = 3; then indices into the sets:
    // 'x' is at 50 of all-but-'-' (which starts at '.'), 'Y' at 25 and '-' at 64
    // of the full set.
    let data = [2u8, 50, 25, 64];
    let mut u = Unstructured::new(&data);
    let name = PortableFilename::arbitrary(&mut u).unwrap();
    assert_eq!(name.as_str(), "xY-");
}

#[test]
fn arbitrary_draws_every_character_after_the_first_from_all() {
    // Length 1 + 2 = 3; first index 0 ('.'), then index 0 of the full set
    // ('.') and index 64 ('-'): a three-character name may hold both.
    let data = [2u8, 0, 0, 64];
    let mut u = Unstructured::new(&data);
    let name = PortableFilename::arbitrary(&mut u).unwrap();
    assert_eq!(name.as_str(), "..-");
}
