use raid_planner::grid::{column_name, grid_template_rows, main_template_columns, row_name, skeleton_template_columns, uuid_string};

const A: u128 = 0x755af363_d688_4147_9e30_7bf0f9bf00f9;
const B: u128 = 0x0000000a_0000_0000_0000_0000000000ff;

#[test]
fn uuids_are_written_as_the_uuid_crate_writes_them() {
    assert_eq!(uuid_string(A), "755af363-d688-4147-9e30-7bf0f9bf00f9");
    assert_eq!(uuid_string(B), "0000000a-0000-0000-0000-0000000000ff");
    for u in [0u128, 1, A, B, u128::MAX, 0x0123_4567_89ab_cdef_fedc_ba98_7654_3210] {
        assert_eq!(uuid_string(u), uuid::Uuid::from_u128(u).to_string());
    }
}

#[test]
fn names_of_columns_and_rows() {
    assert_eq!(column_name(A), "character_755af363-d688-4147-9e30-7bf0f9bf00f9");
    assert_eq!(row_name(B), "attack_0000000a-0000-0000-0000-0000000000ff");
}

#[test]
fn rows_without_attacks() {
    assert_eq!(grid_template_rows(&vec![]), "[character_name] auto [character_spells] auto [last_row] 1fr");
}

#[test]
fn rows_with_attacks() {
    assert_eq!(
        grid_template_rows(&vec![A, B]),
        "[character_name] auto [character_spells] auto \
         [attack_755af363-d688-4147-9e30-7bf0f9bf00f9] auto \
         [attack_0000000a-0000-0000-0000-0000000000ff] auto [last_row] 1fr"
    );
}

#[test]
fn columns_without_characters() {
    assert_eq!(
        main_template_columns(&vec![]),
        "[attack_name] max-content [attack_timer] max-content [add_character] auto"
    );
    assert_eq!(
        skeleton_template_columns(&vec![]),
        "[attack_name] max-content [attack_timer] max-content [add_character] 2rem"
    );
}

#[test]
fn last_character_comes_after_the_button() {
    assert_eq!(
        main_template_columns(&vec![A, B]),
        "[attack_name] max-content [attack_timer] max-content \
         [character_755af363-d688-4147-9e30-7bf0f9bf00f9] auto [add_character] auto \
         [character_0000000a-0000-0000-0000-0000000000ff] minmax(auto, 12rem)"
    );
    assert_eq!(
        skeleton_template_columns(&vec![B]),
        "[attack_name] max-content [attack_timer] max-content [add_character] 2rem \
         [character_0000000a-0000-0000-0000-0000000000ff] auto"
    );
}
