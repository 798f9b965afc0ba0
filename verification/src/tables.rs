//! The eleven EBCDIC codepages.
//!
//! Every page assigns the 256 Latin-1 characters to the 256 bytes, one to one, with one deliberate
//! change: the byte of NEL (`0x15`) decodes to a line feed, so that mainframe line breaks become
//! Unix newlines. `0x25`, the byte of the line feed itself, decodes to a line feed as well, and is
//! what a line feed encodes to.

use vstd::prelude::*;

pub use crate::codepage::Codepage;
use crate::text::str_eq;

pub mod cp0037;
pub mod cp0273;
pub mod cp0277;
pub mod cp0278;
pub mod cp0280;
pub mod cp0284;
pub mod cp0285;
pub mod cp0297;
pub mod cp0500;
pub mod cp0871;
pub mod cp1047;

verus! {

/// Entries of the published tables that are corrected here: codepage, byte, the published text of
/// that byte, and the text used instead. Codepage 0277 is published with an empty entry for the
/// carriage return, which would silently delete every one of them.
pub const PATCHES: [(&'static str, u8, &'static str, &'static str); 1] = [("0277", 0x0D, "", "\r")];

/// Every codepage, by ascending id.
pub open spec fn all_codepages() -> Seq<Codepage> {
    seq![
        cp0037::page(),
        cp0273::page(),
        cp0277::page(),
        cp0278::page(),
        cp0280::page(),
        cp0284::page(),
        cp0285::page(),
        cp0297::page(),
        cp0500::page(),
        cp0871::page(),
        cp1047::page(),
    ]
}

/// Every codepage, by ascending id.
pub fn codepages() -> (pages: Vec<Codepage>)
    ensures
        pages@ == all_codepages(),
{
    let mut pages: Vec<Codepage> = Vec::new();
    pages.push(cp0037::codepage());
    pages.push(cp0273::codepage());
    pages.push(cp0277::codepage());
    pages.push(cp0278::codepage());
    pages.push(cp0280::codepage());
    pages.push(cp0284::codepage());
    pages.push(cp0285::codepage());
    pages.push(cp0297::codepage());
    pages.push(cp0500::codepage());
    pages.push(cp0871::codepage());
    pages.push(cp1047::codepage());
    assert(pages@ =~= all_codepages());
    pages
}

/// The ids, in order.
pub open spec fn all_ids() -> Seq<Seq<char>> {
    seq![
        "0037"@,
        "0273"@,
        "0277"@,
        "0278"@,
        "0280"@,
        "0284"@,
        "0285"@,
        "0297"@,
        "0500"@,
        "0871"@,
        "1047"@,
    ]
}

/// Codepage ids run in the order of [`all_ids`].
pub proof fn lemma_ids()
    ensures
        all_codepages().len() == 11,
        all_codepages().map_values(|cp: Codepage| cp.id@) == all_ids(),
        forall|i: int| 0 <= i < 11 ==> (#[trigger] all_codepages()[i]).id@ == all_ids()[i],
{
    cp0037::lemma_id();
    cp0273::lemma_id();
    cp0277::lemma_id();
    cp0278::lemma_id();
    cp0280::lemma_id();
    cp0284::lemma_id();
    cp0285::lemma_id();
    cp0297::lemma_id();
    cp0500::lemma_id();
    cp0871::lemma_id();
    cp1047::lemma_id();
    assert(all_codepages().map_values(|cp: Codepage| cp.id@) =~= all_ids());
}

/// Every codepage decodes what it encodes: each character up to U+00FF but NEL survives the round
/// trip, and NEL comes back as a line feed. All of them agree on the bytes of the line ends.
pub proof fn lemma_codepages_well_formed()
    ensures
        forall|i: int|
            0 <= i < all_codepages().len() ==> (#[trigger] all_codepages()[i]).well_formed()
                && all_codepages()[i].line_ends_agree(),
{
    cp0037::lemma_well_formed();
    cp0273::lemma_well_formed();
    cp0277::lemma_well_formed();
    cp0278::lemma_well_formed();
    cp0280::lemma_well_formed();
    cp0284::lemma_well_formed();
    cp0285::lemma_well_formed();
    cp0297::lemma_well_formed();
    cp0500::lemma_well_formed();
    cp0871::lemma_well_formed();
    cp1047::lemma_well_formed();
}

/// The pages stand in the order of their ids, each under its own.
pub proof fn lemma_pages_by_id()
    ensures
        all_codepages().len() == 11,
        all_codepages()[0] == cp0037::page() && cp0037::page().id@ == "0037"@,
        all_codepages()[1] == cp0273::page() && cp0273::page().id@ == "0273"@,
        all_codepages()[2] == cp0277::page() && cp0277::page().id@ == "0277"@,
        all_codepages()[3] == cp0278::page() && cp0278::page().id@ == "0278"@,
        all_codepages()[4] == cp0280::page() && cp0280::page().id@ == "0280"@,
        all_codepages()[5] == cp0284::page() && cp0284::page().id@ == "0284"@,
        all_codepages()[6] == cp0285::page() && cp0285::page().id@ == "0285"@,
        all_codepages()[7] == cp0297::page() && cp0297::page().id@ == "0297"@,
        all_codepages()[8] == cp0500::page() && cp0500::page().id@ == "0500"@,
        all_codepages()[9] == cp0871::page() && cp0871::page().id@ == "0871"@,
        all_codepages()[10] == cp1047::page() && cp1047::page().id@ == "1047"@,
{
    lemma_ids();
}

/// Letters, digits and the space stand at the same bytes in every codepage, so text made of them
/// converts alike whichever is chosen.
pub proof fn lemma_common_characters_agree()
    ensures
        forall|i: int|
            0 <= i < all_codepages().len() ==> (
            #[trigger] all_codepages()[i]).common_characters_agree(),
{
    cp0037::lemma_common_characters();
    cp0273::lemma_common_characters();
    cp0277::lemma_common_characters();
    cp0278::lemma_common_characters();
    cp0280::lemma_common_characters();
    cp0284::lemma_common_characters();
    cp0285::lemma_common_characters();
    cp0297::lemma_common_characters();
    cp0500::lemma_common_characters();
    cp0871::lemma_common_characters();
    cp1047::lemma_common_characters();
}

/// The first of `pages` with the given id.
pub open spec fn found(pages: Seq<Codepage>, id: Seq<char>) -> Option<Codepage>
    decreases pages.len(),
{
    if pages.len() == 0 {
        None
    } else if pages[0].id@ == id {
        Some(pages[0])
    } else {
        found(pages.drop_first(), id)
    }
}

/// Finds the first of `pages` with the given id.
pub fn find(pages: &Vec<Codepage>, id: &str) -> (page: Option<Codepage>)
    ensures
        page == found(pages@, id@),
{
    let mut i: usize = 0;
    assert(pages@.skip(0) == pages@);
    while i < pages.len()
        invariant
            i <= pages@.len(),
            found(pages@, id@) == found(pages@.skip(i as int), id@),
        decreases pages@.len() - i,
    {
        if str_eq(pages[i].id, id) {
            return Some(pages[i]);
        }
        assert(pages@.skip(i as int).drop_first() == pages@.skip(i + 1));
        i += 1;
    }
    None
}

/// What is found is one of the pages and has the id; what is not found is in none of them.
pub proof fn lemma_found(pages: Seq<Codepage>, id: Seq<char>)
    ensures
        match found(pages, id) {
            Some(page) => pages.contains(page) && page.id@ == id,
            None => forall|i: int| 0 <= i < pages.len() ==> (#[trigger] pages[i]).id@ != id,
        },
    decreases pages.len(),
{
    if pages.len() > 0 {
        let rest = pages.drop_first();
        lemma_found(rest, id);
        match found(pages, id) {
            Some(page) => {
                if pages[0].id@ == id {
                    assert(pages[0] == page);
                } else {
                    let k = choose|k: int| 0 <= k < rest.len() && rest[k] == page;
                    assert(pages[k + 1] == page);
                }
            },
            None => {
                assert forall|i: int| 0 <= i < pages.len() implies (#[trigger] pages[i]).id@
                    != id by {
                    if i > 0 {
                        assert(pages[i] == rest[i - 1]);
                    }
                }
            },
        }
    }
}

/// No two codepages have the same id.
pub proof fn lemma_ids_differ()
    ensures
        all_ids().no_duplicates(),
        forall|i: int, j: int|
            0 <= i < j < 11 ==> (#[trigger] all_codepages()[i]).id@ != (
            #[trigger] all_codepages()[j]).id@,
{
    lemma_ids();
    reveal_strlit("0037");
    reveal_strlit("0273");
    reveal_strlit("0277");
    reveal_strlit("0278");
    reveal_strlit("0280");
    reveal_strlit("0284");
    reveal_strlit("0285");
    reveal_strlit("0297");
    reveal_strlit("0500");
    reveal_strlit("0871");
    reveal_strlit("1047");
    assert forall|i: int, j: int| 0 <= i < j < 11 implies all_ids()[i] != all_ids()[j] by {
        let a = all_ids()[i];
        let b = all_ids()[j];
        assert(a[0] != b[0] || a[1] != b[1] || a[2] != b[2] || a[3] != b[3]);
    }
}

} // verus!
