//! Tests for the board table and its feature-string rendering.

use stm32f4xx_hal::boards::{boards, features_string, find_board};

#[test]
fn the_table_lists_three_boards() {
    let table = boards();
    assert_eq!(table.len(), 3);
    assert_eq!(table[0].name, "f469disco");
    assert_eq!(table[1].name, "f413disco");
    assert_eq!(table[2].name, "f429disco");
}

#[test]
fn find_board_returns_the_matching_row() {
    let b = find_board("f469disco").unwrap();
    assert_eq!(b.name, "f469disco");
    assert_eq!(b.mcu, "stm32f469");
    assert_eq!(b.features, vec!["stm32-fmc", "defmt"]);
    assert_eq!(b.chip, "STM32F469NIHx");
    assert_eq!(
        b.examples,
        vec!["f469disco-lcd-test", "stm32f469i_disco_screen", "fmc-sdram"]
    );
    assert_eq!(b.board_bins, vec!["lcd-framebuffer"]);

    let b = find_board("f429disco").unwrap();
    assert_eq!(b.mcu, "stm32f429");
    assert_eq!(b.chip, "STM32F429ZITx");
}

#[test]
fn find_board_rejects_unknown_names() {
    assert!(find_board("f407disco").is_none());
    assert!(find_board("").is_none());
    assert!(find_board("F469DISCO").is_none());
}

#[test]
fn features_string_joins_mcu_and_features() {
    let b = find_board("f469disco").unwrap();
    assert_eq!(features_string(&b), "stm32f469,stm32-fmc,defmt");
    let b = find_board("f413disco").unwrap();
    assert_eq!(features_string(&b), "stm32f413,fsmc_lcd,defmt");
    let b = find_board("f429disco").unwrap();
    assert_eq!(features_string(&b), "stm32f429,stm32-fmc");
}
