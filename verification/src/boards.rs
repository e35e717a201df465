//! The table of supported boards and their build configuration.
//!
//! Each board names the MCU feature, additional feature flags, the probe
//! chip identifier, and the examples and board binaries that target it.
//! [`find_board`] looks a board up by name and [`features_string`] renders
//! the comma-separated feature list a build of that board needs.

use vstd::prelude::*;
use vstd::string::StringExecFns;

verus! {

/// Board configuration: name, MCU feature, and additional feature flags.
pub struct BoardConfig {
    /// The board's short name, as given on the command line.
    pub name: String,
    /// The MCU selection feature flag.
    pub mcu: String,
    /// Additional feature flags the board needs.
    pub features: Vec<String>,
    /// The probe chip identifier.
    pub chip: String,
    /// Legacy examples in the top-level examples directory.
    pub examples: Vec<String>,
    /// Binary targets in the board's own crate.
    pub board_bins: Vec<String>,
}

/// The F469 discovery board's table row.
pub open spec fn is_f469disco(b: BoardConfig) -> bool {
    &&& b.name@ == "f469disco"@
    &&& b.mcu@ == "stm32f469"@
    &&& b.features@.len() == 2
    &&& b.features@[0]@ == "stm32-fmc"@
    &&& b.features@[1]@ == "defmt"@
    &&& b.chip@ == "STM32F469NIHx"@
    &&& b.examples@.len() == 3
    &&& b.examples@[0]@ == "f469disco-lcd-test"@
    &&& b.examples@[1]@ == "stm32f469i_disco_screen"@
    &&& b.examples@[2]@ == "fmc-sdram"@
    &&& b.board_bins@.len() == 1
    &&& b.board_bins@[0]@ == "lcd-framebuffer"@
}

/// The F413 discovery board's table row.
pub open spec fn is_f413disco(b: BoardConfig) -> bool {
    &&& b.name@ == "f413disco"@
    &&& b.mcu@ == "stm32f413"@
    &&& b.features@.len() == 2
    &&& b.features@[0]@ == "fsmc_lcd"@
    &&& b.features@[1]@ == "defmt"@
    &&& b.chip@ == "STM32F413ZHTx"@
    &&& b.examples@.len() == 1
    &&& b.examples@[0]@ == "f413disco-lcd-ferris"@
    &&& b.board_bins@.len() == 1
    &&& b.board_bins@[0]@ == "st7789-fsmc"@
}

/// The F429 discovery board's table row.
pub open spec fn is_f429disco(b: BoardConfig) -> bool {
    &&& b.name@ == "f429disco"@
    &&& b.mcu@ == "stm32f429"@
    &&& b.features@.len() == 1
    &&& b.features@[0]@ == "stm32-fmc"@
    &&& b.chip@ == "STM32F429ZITx"@
    &&& b.examples@.len() == 1
    &&& b.examples@[0]@ == "ltdc-screen"@
    &&& b.board_bins@.len() == 1
    &&& b.board_bins@[0]@ == "ltdc-framebuffer"@
}

/// The full board table, in its fixed order.
pub open spec fn is_board_table(t: Seq<BoardConfig>) -> bool {
    &&& t.len() == 3
    &&& is_f469disco(t[0])
    &&& is_f413disco(t[1])
    &&& is_f429disco(t[2])
}

/// Build the table of supported boards.
pub fn boards() -> (r: Vec<BoardConfig>)
    ensures
        is_board_table(r@),
{
    let mut f469_features: Vec<String> = Vec::new();
    f469_features.push(String::from_str("stm32-fmc"));
    f469_features.push(String::from_str("defmt"));
    let mut f469_examples: Vec<String> = Vec::new();
    f469_examples.push(String::from_str("f469disco-lcd-test"));
    f469_examples.push(String::from_str("stm32f469i_disco_screen"));
    f469_examples.push(String::from_str("fmc-sdram"));
    let mut f469_bins: Vec<String> = Vec::new();
    f469_bins.push(String::from_str("lcd-framebuffer"));
    let f469 = BoardConfig {
        name: String::from_str("f469disco"),
        mcu: String::from_str("stm32f469"),
        features: f469_features,
        chip: String::from_str("STM32F469NIHx"),
        examples: f469_examples,
        board_bins: f469_bins,
    };

    let mut f413_features: Vec<String> = Vec::new();
    f413_features.push(String::from_str("fsmc_lcd"));
    f413_features.push(String::from_str("defmt"));
    let mut f413_examples: Vec<String> = Vec::new();
    f413_examples.push(String::from_str("f413disco-lcd-ferris"));
    let mut f413_bins: Vec<String> = Vec::new();
    f413_bins.push(String::from_str("st7789-fsmc"));
    let f413 = BoardConfig {
        name: String::from_str("f413disco"),
        mcu: String::from_str("stm32f413"),
        features: f413_features,
        chip: String::from_str("STM32F413ZHTx"),
        examples: f413_examples,
        board_bins: f413_bins,
    };

    let mut f429_features: Vec<String> = Vec::new();
    f429_features.push(String::from_str("stm32-fmc"));
    let mut f429_examples: Vec<String> = Vec::new();
    f429_examples.push(String::from_str("ltdc-screen"));
    let mut f429_bins: Vec<String> = Vec::new();
    f429_bins.push(String::from_str("ltdc-framebuffer"));
    let f429 = BoardConfig {
        name: String::from_str("f429disco"),
        mcu: String::from_str("stm32f429"),
        features: f429_features,
        chip: String::from_str("STM32F429ZITx"),
        examples: f429_examples,
        board_bins: f429_bins,
    };

    let mut table: Vec<BoardConfig> = Vec::new();
    table.push(f469);
    table.push(f413);
    table.push(f429);
    table
}

/// Look a board up by name: the table row whose name is `name`, or `None`
/// when no supported board carries that name.
pub fn find_board(name: &str) -> (r: Option<BoardConfig>)
    ensures
        match r {
            Some(b) => b.name@ == name@ && (is_f469disco(b) || is_f413disco(b) || is_f429disco(
                b,
            )),
            None => name@ != "f469disco"@ && name@ != "f413disco"@ && name@ != "f429disco"@,
        },
{
    let mut table = boards();
    let owned = name.to_owned();
    let mut i: usize = 0;
    while i < table.len()
        invariant
            is_board_table(table@),
            i <= 3,
            owned@ == name@,
            forall|j: int| 0 <= j < i ==> table@[j].name@ != name@,
        decreases table@.len() - i,
    {
        if owned == table[i].name {
            let b = table.remove(i);
            return Some(b);
        }
        i = i + 1;
    }
    None
}

/// A sequence of parts joined by single commas, in order.
pub open spec fn comma_join(parts: Seq<Seq<char>>) -> Seq<char>
    decreases parts.len(),
{
    if parts.len() == 0 {
        Seq::empty()
    } else if parts.len() == 1 {
        parts[0]
    } else {
        parts[0] + seq![','] + comma_join(parts.skip(1))
    }
}

/// Appending one part to a non-empty join adds one comma and the part.
pub proof fn lemma_comma_join_snoc(parts: Seq<Seq<char>>, part: Seq<char>)
    requires
        parts.len() >= 1,
    ensures
        comma_join(parts.push(part)) == comma_join(parts) + seq![','] + part,
    decreases parts.len(),
{
    let grown = parts.push(part);
    if parts.len() == 1 {
        assert(grown.skip(1) =~= seq![part]);
        assert(comma_join(grown.skip(1)) == part);
        assert(comma_join(grown) == parts[0] + seq![','] + part);
        assert(comma_join(parts) == parts[0]);
    } else {
        assert(grown.skip(1) =~= parts.skip(1).push(part));
        lemma_comma_join_snoc(parts.skip(1), part);
        assert(comma_join(grown) =~= comma_join(parts) + seq![','] + part);
    }
}

/// The views of the strings in a vector.
pub open spec fn string_views(v: Seq<String>) -> Seq<Seq<char>> {
    v.map(|_i: int, s: String| s@)
}

/// Render the feature flags a build of `board` needs: the MCU feature
/// followed by the board's additional features, comma-separated.
#[verifier::loop_isolation(false)]
pub fn features_string(board: &BoardConfig) -> (r: String)
    ensures
        r@ == comma_join(seq![board.mcu@] + string_views(board.features@)),
{
    let mut out = String::from_str(board.mcu.as_str());
    proof {
        reveal_strlit(",");
        assert(","@ =~= seq![',']);
        assert(seq![board.mcu@] + string_views(board.features@).take(0) =~= seq![board.mcu@]);
        assert(comma_join(seq![board.mcu@]) == board.mcu@);
    }
    let mut i: usize = 0;
    while i < board.features.len()
        invariant
            i <= board.features@.len(),
            out@ == comma_join(seq![board.mcu@] + string_views(board.features@).take(i as int)),
        decreases board.features@.len() - i,
    {
        out.append(",");
        out.append(board.features[i].as_str());
        proof {
            let parts = seq![board.mcu@] + string_views(board.features@).take(i as int);
            lemma_comma_join_snoc(parts, board.features@[i as int]@);
            assert(parts.push(board.features@[i as int]@) =~= seq![board.mcu@] + string_views(
                board.features@,
            ).take(i as int + 1));
        }
        i = i + 1;
    }
    proof {
        assert(string_views(board.features@).take(board.features@.len() as int) =~= string_views(
            board.features@,
        ));
    }
    out
}

} // verus!
