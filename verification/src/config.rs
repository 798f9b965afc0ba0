//! Server configuration, and how codepage ids may be spelled.

use vstd::prelude::*;
use vstd::string::*;

use crate::json::{items, json_of, member, strings, Json};
use crate::tables::{
    all_codepages, all_ids, codepages, find, found, lemma_found, lemma_ids, lemma_ids_differ, Codepage,
};
use crate::text::{
    chars_of, is_white_space, lower, lowered, starts_with, str_eq, str_views, string_of,
    string_views, strip, stripped, trim, trimmed, trimmed_end, trimmed_start,
};

verus! {

// ---------------------------------------------------------------------------------------------
// Spelling of codepage ids
// ---------------------------------------------------------------------------------------------
/// `text` padded on the left with zeros to four characters.
pub open spec fn zero_padded(text: Seq<char>) -> Seq<char> {
    if text.len() < 4 {
        Seq::new((4 - text.len()) as nat, |i: int| '0') + text
    } else {
        text
    }
}

/// What is left of a requested id without white space around it, capitals, any leading `cp`,
/// `ibm-` and `ibm`, and leading zeros.
pub open spec fn significant(requested: Seq<char>) -> Seq<char> {
    let small = lowered(trimmed(requested));
    stripped(stripped(stripped(stripped(small, "cp"@), "ibm-"@), "ibm"@), "0"@)
}

/// The id that `requested` spells.
pub open spec fn normalized(requested: Seq<char>) -> Seq<char> {
    zero_padded(significant(requested))
}

/// Accept `37`, `037`, `0037`, `cp037` and `ibm-037` as ids: the zero-padded four-digit form is
/// easy to mistype, and a silently ignored setting is hard to debug.
pub fn normalize(requested: &str) -> (id: String)
    ensures
        id@ == normalized(requested@),
{
    let chars = chars_of(requested);
    let small = lower(trim(chars.as_slice()));
    let cp = chars_of("cp");
    let ibm_dash = chars_of("ibm-");
    let ibm = chars_of("ibm");
    let zero = chars_of("0");
    let rest = strip(small.as_slice(), cp.as_slice());
    let rest = strip(rest, ibm_dash.as_slice());
    let rest = strip(rest, ibm.as_slice());
    let digits = strip(rest, zero.as_slice());
    let mut id: Vec<char> = Vec::new();
    while id.len() + digits.len() < 4
        invariant
            id@.len() <= 4,
            digits@.len() < 4 ==> id@.len() + digits@.len() <= 4,
            digits@.len() >= 4 ==> id@.len() == 0,
            id@ == Seq::new(id@.len(), |i: int| '0'),
        decreases 4 - id@.len(),
    {
        id.push('0');
    }
    let mut i: usize = 0;
    let ghost zeros = id@;
    while i < digits.len()
        invariant
            i <= digits@.len(),
            id@ == zeros + digits@.take(i as int),
        decreases digits@.len() - i,
    {
        id.push(digits[i]);
        i += 1;
        assert(id@ =~= zeros + digits@.take(i as int));
    }
    assert(id@ =~= zero_padded(digits@));
    string_of(id.as_slice())
}

// ---------------------------------------------------------------------------------------------
// Settings
// ---------------------------------------------------------------------------------------------
/// User settings.
#[derive(Debug)]
pub struct Settings {
    /// Codepage ids to offer, such as `["0037", "1047"]`. Empty means all of them.
    pub codepages: Vec<String>,
}

/// Whether one of the requested ids spells `id`.
pub open spec fn wanted(requested: Seq<Seq<char>>, id: Seq<char>) -> bool {
    exists|i: int| 0 <= i < requested.len() && normalized(#[trigger] requested[i]) == id
}

/// The codepages among all of them that `requested` asks for, in table order.
pub open spec fn selected(requested: Seq<Seq<char>>) -> Seq<Codepage> {
    all_codepages().filter(|page: Codepage| wanted(requested, page.id@))
}

/// The codepages to offer: those asked for, or all of them where that is none.
pub open spec fn enabled(requested: Seq<Seq<char>>) -> Seq<Codepage> {
    if selected(requested).len() == 0 {
        all_codepages()
    } else {
        selected(requested)
    }
}

/// Whether `requested` spells the id of a codepage.
pub open spec fn known(requested: Seq<char>) -> bool {
    all_ids().contains(normalized(requested))
}

/// The codepages that a settings value lists. The list may stand under `codepages` or be the only
/// item of an array; anything else, and anything but a list of texts, lists none.
pub open spec fn listed(settings: Json) -> Seq<Seq<char>> {
    let list = match settings {
        Json::List(items) => if items.len() == 1 {
            items[0].texts()
        } else {
            None
        },
        _ => match settings.member("codepages"@) {
            Some(found) => found.texts(),
            None => None,
        },
    };
    match list {
        Some(texts) => texts,
        None => Seq::empty(),
    }
}

/// The settings in a payload: its `ebcdic` section where it has one, else all of it.
pub open spec fn scoped(payload: Json) -> Json {
    match payload.member("ebcdic"@) {
        Some(section) => section,
        None => payload,
    }
}

impl Default for Settings {
    fn default() -> (settings: Self)
        ensures
            settings.requested() == Seq::<Seq<char>>::empty(),
    {
        let settings = Settings { codepages: Vec::new() };
        assert(settings.requested() =~= Seq::<Seq<char>>::empty());
        settings
    }
}

impl Settings {
    /// The ids asked for, as they were spelled.
    pub open spec fn requested(self) -> Seq<Seq<char>> {
        string_views(self.codepages@)
    }

    /// The settings that a parsed list of ids amounts to: a list that could not be parsed counts
    /// as empty, so that a malformed setting offers everything and never takes the server down.
    pub fn from_parsed(codepages: Option<Vec<String>>) -> (settings: Self)
        ensures
            settings.requested() == match codepages {
                Some(list) => string_views(list@),
                None => Seq::empty(),
            },
    {
        match codepages {
            Some(codepages) => Settings { codepages },
            None => Settings::default(),
        }
    }

    /// Parse settings from a payload, tolerating both the bare object and a nested
    /// `{"ebcdic": {...}}` section, since either shape can be delivered.
    ///
    /// Unparseable input yields defaults rather than an error.
    pub fn from_value(value: &serde_json::Value) -> (settings: Self)
        ensures
            settings.requested() == listed(scoped(json_of(*value))),
    {
        let scoped = match member(value, "ebcdic") {
            Some(section) => section,
            None => value,
        };
        let list = match items(scoped) {
            Some(list) => if list.len() == 1 {
                strings(&list[0])
            } else {
                None
            },
            None => match member(scoped, "codepages") {
                Some(found) => strings(found),
                None => None,
            },
        };
        Settings::from_parsed(list)
    }

    /// The ids asked for, as they are spelled in the table.
    fn normalized_requests(&self) -> (ids: Vec<String>)
        ensures
            ids@.len() == self.requested().len(),
            forall|i: int|
                0 <= i < ids@.len() ==> (#[trigger] ids@[i])@ == normalized(self.requested()[i]),
    {
        let mut ids: Vec<String> = Vec::new();
        let mut i: usize = 0;
        while i < self.codepages.len()
            invariant
                i <= self.codepages@.len(),
                ids@.len() == i,
                forall|k: int|
                    0 <= k < i ==> (#[trigger] ids@[k])@ == normalized(self.requested()[k]),
            decreases self.codepages@.len() - i,
        {
            ids.push(normalize(self.codepages[i].as_str()));
            i += 1;
        }
        ids
    }

    /// The codepages to offer, in table order.
    ///
    /// Unknown ids are ignored. If that leaves nothing (every id was a typo), all codepages are
    /// offered, so the feature never silently disappears.
    pub fn enabled_codepages(&self) -> (pages: Vec<Codepage>)
        ensures
            pages@ == enabled(self.requested()),
    {
        let ghost asked = |page: Codepage| wanted(self.requested(), page.id@);
        let all = codepages();
        let ids = self.normalized_requests();
        let mut pages: Vec<Codepage> = Vec::new();
        proof {
            lemma_filter_empty(asked);
            assert(all@.take(0) == Seq::<Codepage>::empty());
        }
        let mut i: usize = 0;
        while i < all.len()
            invariant
                i <= all@.len(),
                ids@.len() == self.requested().len(),
                forall|k: int|
                    0 <= k < ids@.len() ==> (#[trigger] ids@[k])@ == normalized(
                        self.requested()[k],
                    ),
                asked == (|page: Codepage| wanted(self.requested(), page.id@)),
                pages@ == all@.take(i as int).filter(asked),
            decreases all@.len() - i,
        {
            let page = all[i];
            proof {
                lemma_filter_push(all@.take(i as int), page, asked);
                assert(all@.take(i + 1) == all@.take(i as int).push(page));
            }
            if holds(&ids, page.id) {
                assert(asked(page)) by {
                    let k = choose|k: int| 0 <= k < ids@.len() && (#[trigger] ids@[k])@ == page.id@;
                    assert(normalized(self.requested()[k]) == page.id@);
                }
                pages.push(page);
            } else {
                assert(!asked(page)) by {
                    if wanted(self.requested(), page.id@) {
                        let k = choose|k: int|
                            0 <= k < self.requested().len() && normalized(
                                #[trigger] self.requested()[k],
                            ) == page.id@;
                        assert(ids@[k]@ == page.id@);
                    }
                }
            }
            i += 1;
        }
        assert(all@.take(all@.len() as int) == all@);
        if pages.len() == 0 {
            all
        } else {
            pages
        }
    }

    /// Ids requested by the user that match no known codepage, for a startup warning.
    pub fn unknown_codepages(&self) -> (unknown: Vec<&str>)
        ensures
            str_views(unknown@) == self.requested().filter(|id: Seq<char>| !known(id)),
    {
        let ghost stray = |id: Seq<char>| !known(id);
        let all = codepages();
        let ids = self.normalized_requests();
        let mut unknown: Vec<&str> = Vec::new();
        proof {
            lemma_filter_empty(stray);
            assert(self.requested().take(0) == Seq::<Seq<char>>::empty());
            assert(str_views(unknown@) == Seq::<Seq<char>>::empty());
        }
        let mut i: usize = 0;
        while i < self.codepages.len()
            invariant
                i <= self.codepages@.len(),
                all@ == all_codepages(),
                ids@.len() == self.requested().len(),
                forall|k: int|
                    0 <= k < ids@.len() ==> (#[trigger] ids@[k])@ == normalized(
                        self.requested()[k],
                    ),
                stray == (|id: Seq<char>| !known(id)),
                str_views(unknown@) == self.requested().take(i as int).filter(stray),
            decreases self.codepages@.len() - i,
        {
            let ghost id = self.requested()[i as int];
            let ghost before = unknown@;
            proof {
                lemma_filter_push(self.requested().take(i as int), id, stray);
                assert(self.requested().take(i + 1) == self.requested().take(i as int).push(id));
                lemma_found(all_codepages(), normalized(id));
                lemma_known(id);
            }
            if find(&all, ids[i].as_str()).is_none() {
                unknown.push(self.codepages[i].as_str());
                assert(str_views(unknown@) == str_views(before).push(id));
            }
            i += 1;
        }
        assert(self.requested().take(self.codepages@.len() as int) == self.requested());
        unknown
    }
}

/// Whether `id` is among `ids`.
fn holds(ids: &Vec<String>, id: &str) -> (yes: bool)
    ensures
        yes == exists|i: int| 0 <= i < ids@.len() && (#[trigger] ids@[i])@ == id@,
{
    let mut i: usize = 0;
    while i < ids.len()
        invariant
            i <= ids@.len(),
            forall|k: int| 0 <= k < i ==> (#[trigger] ids@[k])@ != id@,
        decreases ids@.len() - i,
    {
        if str_eq(ids[i].as_str(), id) {
            return true;
        }
        i += 1;
    }
    false
}

proof fn lemma_filter_empty<A>(p: spec_fn(A) -> bool)
    ensures
        Seq::<A>::empty().filter(p) == Seq::<A>::empty(),
{
    reveal(Seq::filter);
}

proof fn lemma_filter_push<A>(s: Seq<A>, x: A, p: spec_fn(A) -> bool)
    ensures
        s.push(x).filter(p) == (if p(x) {
            s.filter(p).push(x)
        } else {
            s.filter(p)
        }),
{
    reveal(Seq::filter);
    assert(s.push(x).drop_last() == s);
}

/// An id is known exactly where a codepage can be found for it.
pub proof fn lemma_known(requested: Seq<char>)
    ensures
        known(requested) <==> found(all_codepages(), normalized(requested)) is Some,
{
    let id = normalized(requested);
    lemma_ids();
    lemma_found(all_codepages(), id);
    match found(all_codepages(), id) {
        Some(page) => {
            let k = choose|k: int| 0 <= k < 11 && #[trigger] all_codepages()[k] == page;
            assert(all_ids()[k] == id);
        },
        None => {
            if all_ids().contains(id) {
                let k = choose|k: int| 0 <= k < 11 && #[trigger] all_ids()[k] == id;
                assert(all_codepages()[k].id@ == id);
            }
        },
    }
}

// ---------------------------------------------------------------------------------------------
// Laws
// ---------------------------------------------------------------------------------------------
/// Text made of white space.
pub open spec fn all_white(text: Seq<char>) -> bool {
    forall|i: int| 0 <= i < text.len() ==> is_white_space(#[trigger] text[i])
}

/// Text made of decimal digits.
pub open spec fn all_digits(text: Seq<char>) -> bool {
    forall|i: int| 0 <= i < text.len() ==> '0' <= #[trigger] text[i] <= '9'
}

proof fn lemma_trims_start(left: Seq<char>, rest: Seq<char>)
    requires
        all_white(left),
        rest.len() > 0,
        !is_white_space(rest[0]),
    ensures
        trimmed_start(left + rest) == rest,
    decreases left.len(),
{
    if left.len() == 0 {
        assert(left + rest == rest);
    } else {
        let later = left.drop_first();
        assert forall|i: int| 0 <= i < later.len() implies is_white_space(#[trigger] later[i]) by {
            assert(later[i] == left[i + 1]);
        }
        lemma_trims_start(later, rest);
        assert((left + rest).drop_first() == later + rest);
        assert((left + rest)[0] == left[0]);
    }
}

proof fn lemma_trims_end(rest: Seq<char>, right: Seq<char>)
    requires
        all_white(right),
        rest.len() > 0,
        !is_white_space(rest.last()),
    ensures
        trimmed_end(rest + right) == rest,
    decreases right.len(),
{
    if right.len() == 0 {
        assert(rest + right == rest);
    } else {
        let before = right.drop_last();
        assert forall|i: int| 0 <= i < before.len() implies is_white_space(
            #[trigger] before[i],
        ) by {
            assert(before[i] == right[i]);
        }
        lemma_trims_end(rest, before);
        assert((rest + right).drop_last() == rest + before);
        assert((rest + right).last() == right[right.len() - 1]);
    }
}

/// White space on either side of text that neither begins nor ends with any is trimmed off.
pub proof fn lemma_trims(left: Seq<char>, text: Seq<char>, right: Seq<char>)
    requires
        all_white(left),
        all_white(right),
        text.len() > 0,
        !is_white_space(text[0]),
        !is_white_space(text.last()),
    ensures
        trimmed(left + text + right) == text,
{
    assert(left + text + right == left + (text + right));
    lemma_trims_start(left, text + right);
    lemma_trims_end(text, right);
}

/// How a number may be introduced: by `cp`, `ibm-` or `ibm`, in capitals or not, or by nothing.
pub open spec fn is_prefix(prefix: Seq<char>) -> bool {
    lowered(prefix) == ""@ || lowered(prefix) == "cp"@ || lowered(prefix) == "ibm-"@ || lowered(
        prefix,
    ) == "ibm"@
}

proof fn lemma_strips_no_digits(number: Seq<char>, prefix: Seq<char>)
    requires
        all_digits(number),
        prefix.len() > 0,
        !('0' <= prefix[0] <= '9'),
    ensures
        stripped(number, prefix) == number,
{
    if starts_with(number, prefix) {
        assert(number.take(prefix.len() as int)[0] == number[0]);
    }
}

proof fn lemma_strips_once(number: Seq<char>, prefix: Seq<char>)
    requires
        all_digits(number),
        prefix.len() > 0,
        !('0' <= prefix[0] <= '9'),
    ensures
        stripped(prefix + number, prefix) == number,
{
    assert((prefix + number).take(prefix.len() as int) == prefix);
    assert((prefix + number).skip(prefix.len() as int) == number);
    lemma_strips_no_digits(number, prefix);
}

/// A number is spelled the same whatever introduces it and whatever white space surrounds it.
pub proof fn lemma_spellings_agree(
    left: Seq<char>,
    prefix: Seq<char>,
    number: Seq<char>,
    right: Seq<char>,
)
    requires
        all_white(left),
        is_prefix(prefix),
        all_digits(number),
        number.len() > 0,
        all_white(right),
    ensures
        normalized(left + (prefix + number) + right) == zero_padded(stripped(number, "0"@)),
{
    reveal_strlit("");
    reveal_strlit("cp");
    reveal_strlit("ibm-");
    reveal_strlit("ibm");
    let text = prefix + number;
    if prefix.len() > 0 {
        assert(lowered(prefix).len() == prefix.len());
        assert(lowered(prefix)[0] == crate::text::ascii_lower(prefix[0]));
        assert(lowered(prefix)[0] == 'c' || lowered(prefix)[0] == 'i');
        assert(text[0] == prefix[0]);
    } else {
        assert(text[0] == number[0]);
    }
    assert(text.last() == number[number.len() - 1]);
    lemma_trims(left, text, right);
    let small = lowered(text);
    assert(lowered(number) =~= number) by {
        assert forall|i: int| 0 <= i < number.len() implies lowered(number)[i] == number[i] by {
            assert('0' <= number[i] <= '9');
        }
    }
    assert(small =~= lowered(prefix) + number) by {
        assert forall|i: int| 0 <= i < small.len() implies small[i] == (lowered(prefix)
            + number)[i] by {
            if i >= prefix.len() {
                assert(text[i] == number[i - prefix.len()]);
                assert(lowered(number)[i - prefix.len()] == number[i - prefix.len()]);
            }
        }
    }
    lemma_strips_no_digits(number, "cp"@);
    lemma_strips_no_digits(number, "ibm-"@);
    lemma_strips_no_digits(number, "ibm"@);
    if lowered(prefix) == ""@ {
        assert(small =~= number);
    } else if lowered(prefix) == "cp"@ {
        lemma_strips_once(number, "cp"@);
    } else if lowered(prefix) == "ibm-"@ {
        lemma_strips_once(number, "ibm-"@);
        assert(!starts_with(small, "cp"@)) by {
            assert(small[0] == 'i');
            if starts_with(small, "cp"@) {
                assert(small.take(2)[0] == small[0]);
            }
        }
    } else {
        lemma_strips_once(number, "ibm"@);
        assert(!starts_with(small, "cp"@)) by {
            assert(small[0] == 'i');
            if starts_with(small, "cp"@) {
                assert(small.take(2)[0] == small[0]);
            }
        }
        assert(!starts_with(small, "ibm-"@)) by {
            assert(small[3] == number[0]);
            if starts_with(small, "ibm-"@) {
                assert(small.take(4)[3] == small[3]);
            }
        }
    }
}

/// Leading zeros make no difference to which codepage a number spells.
pub proof fn lemma_leading_zeros_agree(zeros: Seq<char>, number: Seq<char>)
    requires
        forall|i: int| 0 <= i < zeros.len() ==> (#[trigger] zeros[i]) == '0',
    ensures
        stripped(zeros + number, "0"@) == stripped(number, "0"@),
    decreases zeros.len(),
{
    reveal_strlit("0");
    if zeros.len() == 0 {
        assert(zeros + number == number);
    } else {
        let later = zeros.drop_first();
        assert forall|i: int| 0 <= i < later.len() implies (#[trigger] later[i]) == '0' by {
            assert(later[i] == zeros[i + 1]);
        }
        lemma_leading_zeros_agree(later, number);
        let all = zeros + number;
        assert(all[0] == zeros[0]);
        assert(all.take(1) == "0"@);
        assert(all.skip(1) == later + number);
    }
}

/// A four-digit id with at least one digit that is not zero spells itself.
proof fn lemma_id_spells_itself(id: Seq<char>)
    requires
        id.len() == 4,
        all_digits(id),
        id[0] != '0' || id[1] != '0' || id[2] != '0' || id[3] != '0',
    ensures
        normalized(id) == id,
{
    reveal_strlit("");
    reveal_strlit("0");
    let none = Seq::<char>::empty();
    assert(lowered(none) =~= ""@);
    lemma_spellings_agree(none, none, id, none);
    assert(none + (none + id) + none == id);
    let k: int = if id[0] != '0' {
        0
    } else if id[1] != '0' {
        1
    } else if id[2] != '0' {
        2
    } else {
        3
    };
    let zeros = id.take(k);
    let number = id.skip(k);
    assert(zeros + number == id);
    lemma_leading_zeros_agree(zeros, number);
    if starts_with(number, "0"@) {
        assert(number.take(1)[0] == number[0]);
        assert(number[0] == id[k]);
    }
    assert(stripped(number, "0"@) == number);
    assert(zero_padded(number) =~= id);
}

/// Every codepage id spells itself, so each of them is known.
pub proof fn lemma_ids_spell_themselves()
    ensures
        forall|i: int|
            0 <= i < 11 ==> normalized(#[trigger] all_ids()[i]) == all_ids()[i] && known(
                all_ids()[i],
            ),
{
    reveal_strlit("0037");
    reveal_strlit("0273");
    reveal_strlit("0277");
    reveal_strlit("0278");
    reveal_strlit("0280");
    reveal_strlit("0284");
    reveal_strlit("0285");
    reveal_strlit("0297");
    reveal_strlit("0500");
    reveal_strlit("0871");
    reveal_strlit("1047");
    assert forall|i: int| 0 <= i < 11 implies normalized(#[trigger] all_ids()[i]) == all_ids()[i]
        && known(all_ids()[i]) by {
        lemma_id_spells_itself(all_ids()[i]);
    }
}

/// Something is always offered, and nothing but codepages of the table.
pub proof fn lemma_enabled_never_empty(requested: Seq<Seq<char>>)
    ensures
        enabled(requested).len() > 0,
        forall|i: int|
            0 <= i < enabled(requested).len() ==> all_codepages().contains(
                #[trigger] enabled(requested)[i],
            ),
{
    let asked = |page: Codepage| wanted(requested, page.id@);
    assert forall|i: int| 0 <= i < enabled(requested).len() implies all_codepages().contains(
        #[trigger] enabled(requested)[i],
    ) by {
        if selected(requested).len() > 0 {
            assert(all_codepages().filter(asked).contains(enabled(requested)[i]));
            all_codepages().lemma_filter_contains_rev(asked, enabled(requested)[i]);
        }
    }
}

/// An empty list offers every codepage.
pub proof fn lemma_empty_list_enables_all()
    ensures
        enabled(Seq::empty()) == all_codepages(),
{
    let requested = Seq::<Seq<char>>::empty();
    let asked = |page: Codepage| wanted(requested, page.id@);
    if selected(requested).len() > 0 {
        all_codepages().lemma_filter_pred(asked, 0);
    }
}

/// Where no requested id is known, every codepage is offered rather than none.
pub proof fn lemma_all_unknown_enables_all(requested: Seq<Seq<char>>)
    requires
        forall|i: int| 0 <= i < requested.len() ==> !known(#[trigger] requested[i]),
    ensures
        enabled(requested) == all_codepages(),
{
    let p = |id: Seq<char>| known(id);
    requested.lemma_all_neg_filter_empty(p);
    assert(requested.filter(p) =~= Seq::<Seq<char>>::empty());
    lemma_unknown_ids_are_ignored(requested);
    lemma_empty_list_enables_all();
}

/// Whether a codepage is offered: where any requested id is known, exactly those asked for are.
pub proof fn lemma_enabled_are_the_wanted(requested: Seq<Seq<char>>, page: Codepage)
    requires
        exists|i: int| 0 <= i < requested.len() && known(#[trigger] requested[i]),
    ensures
        enabled(requested).contains(page) <==> all_codepages().contains(page) && wanted(
            requested,
            page.id@,
        ),
{
    let asked = |p: Codepage| wanted(requested, p.id@);
    let i = choose|i: int| 0 <= i < requested.len() && known(#[trigger] requested[i]);
    let id = normalized(requested[i]);
    lemma_ids();
    let k = choose|k: int| 0 <= k < 11 && #[trigger] all_ids()[k] == id;
    assert(all_codepages()[k].id@ == id);
    assert(wanted(requested, id));
    all_codepages().lemma_filter_contains(asked, k);
    assert(selected(requested).len() > 0);
    if enabled(requested).contains(page) {
        all_codepages().lemma_filter_contains_rev(asked, page);
        let j = choose|j: int| 0 <= j < selected(requested).len() && selected(requested)[j] == page;
        all_codepages().lemma_filter_pred(asked, j);
    }
    if all_codepages().contains(page) && wanted(requested, page.id@) {
        let j = choose|j: int| 0 <= j < all_codepages().len() && all_codepages()[j] == page;
        all_codepages().lemma_filter_contains(asked, j);
    }
}

/// Unknown ids are ignored: without them the same codepages are offered.
pub proof fn lemma_unknown_ids_are_ignored(requested: Seq<Seq<char>>)
    ensures
        enabled(requested.filter(|id: Seq<char>| known(id))) == enabled(requested),
{
    let p = |id: Seq<char>| known(id);
    let kept = requested.filter(p);
    lemma_ids();
    let before = |page: Codepage| wanted(requested, page.id@);
    let after = |page: Codepage| wanted(kept, page.id@);
    assert forall|k: int| 0 <= k < all_codepages().len() implies before(
        #[trigger] all_codepages()[k],
    ) == after(all_codepages()[k]) by {
        let id = all_codepages()[k].id@;
        assert(all_ids()[k] == id);
        if wanted(requested, id) {
            let i = choose|i: int| 0 <= i < requested.len() && normalized(#[trigger] requested[i]) == id;
            assert(known(requested[i]));
            requested.lemma_filter_contains(p, i);
            let j = choose|j: int| 0 <= j < kept.len() && kept[j] == requested[i];
            assert(normalized(kept[j]) == id);
        }
        if wanted(kept, id) {
            let j = choose|j: int| 0 <= j < kept.len() && normalized(#[trigger] kept[j]) == id;
            requested.lemma_filter_contains_rev(p, kept[j]);
            let i = choose|i: int| 0 <= i < requested.len() && requested[i] == kept[j];
            assert(normalized(requested[i]) == id);
        }
    }
    lemma_filters_agree(all_codepages(), before, after);
}

proof fn lemma_filters_agree<A>(s: Seq<A>, p: spec_fn(A) -> bool, q: spec_fn(A) -> bool)
    requires
        forall|i: int| 0 <= i < s.len() ==> p(#[trigger] s[i]) == q(s[i]),
    ensures
        s.filter(p) == s.filter(q),
    decreases s.len(),
{
    reveal(Seq::filter);
    if s.len() > 0 {
        let front = s.drop_last();
        assert forall|i: int| 0 <= i < front.len() implies p(#[trigger] front[i]) == q(front[i]) by {
            assert(front[i] == s[i]);
        }
        lemma_filters_agree(front, p, q);
        assert(p(s[s.len() - 1]) == q(s[s.len() - 1]));
    }
}

/// Where a codepage stands in the table.
pub open spec fn rank(page: Codepage) -> int {
    all_ids().index_of(page.id@)
}

/// Codepages are offered in table order, whatever order they were asked for in, each once.
pub proof fn lemma_enabled_in_table_order(requested: Seq<Seq<char>>, i: int, j: int)
    requires
        0 <= i < j < enabled(requested).len(),
    ensures
        rank(enabled(requested)[i]) < rank(enabled(requested)[j]),
{
    lemma_ids();
    lemma_ids_differ();
    assert forall|a: int| 0 <= a < all_codepages().len() implies rank(
        #[trigger] all_codepages()[a],
    ) == a by {
        assert(all_ids()[a] == all_codepages()[a].id@);
        let b = all_ids().index_of(all_codepages()[a].id@);
        assert(all_ids()[b] == all_ids()[a]);
    }
    let asked = |page: Codepage| wanted(requested, page.id@);
    if selected(requested).len() > 0 {
        lemma_filter_keeps_order(all_codepages(), asked, |page: Codepage| rank(page));
    }
}

proof fn lemma_filter_keeps_order<A>(s: Seq<A>, p: spec_fn(A) -> bool, rank: spec_fn(A) -> int)
    requires
        forall|a: int, b: int| 0 <= a < b < s.len() ==> rank(#[trigger] s[a]) < rank(#[trigger] s[b]),
    ensures
        forall|a: int, b: int|
            0 <= a < b < s.filter(p).len() ==> rank(#[trigger] s.filter(p)[a]) < rank(
                #[trigger] s.filter(p)[b],
            ),
    decreases s.len(),
{
    reveal(Seq::filter);
    if s.len() > 0 {
        let front = s.drop_last();
        assert forall|a: int, b: int| 0 <= a < b < front.len() implies rank(#[trigger] front[a])
            < rank(#[trigger] front[b]) by {
            assert(front[a] == s[a] && front[b] == s[b]);
        }
        lemma_filter_keeps_order(front, p, rank);
        let rest = front.filter(p);
        assert forall|a: int| 0 <= a < rest.len() implies rank(#[trigger] rest[a]) < rank(
            s.last(),
        ) by {
            assert(rest.contains(rest[a]));
            front.lemma_filter_contains_rev(p, rest[a]);
            let k = choose|k: int| 0 <= k < front.len() && front[k] == rest[a];
            assert(s[k] == front[k]);
            assert(s[s.len() - 1] == s.last());
        }
    }
}

/// A number with or without zeros in front of it, introduced or not, in white space or not, spells
/// the id made of its digits, filled up with zeros to four. `number` is what is left of it without
/// leading zeros; `padding` is what fills it up.
pub proof fn lemma_numbers_spell_their_digits(
    left: Seq<char>,
    prefix: Seq<char>,
    zeros: Seq<char>,
    number: Seq<char>,
    right: Seq<char>,
    padding: Seq<char>,
)
    requires
        forall|i: int| 0 <= i < left.len() ==> is_white_space(#[trigger] left[i]),
        forall|i: int| 0 <= i < right.len() ==> is_white_space(#[trigger] right[i]),
        lowered(prefix) == ""@ || lowered(prefix) == "cp"@ || lowered(prefix) == "ibm-"@ || lowered(
            prefix,
        ) == "ibm"@,
        forall|i: int| 0 <= i < zeros.len() ==> #[trigger] zeros[i] == '0',
        forall|i: int| 0 <= i < number.len() ==> '0' <= #[trigger] number[i] <= '9',
        number.len() > 0 ==> number[0] != '0',
        zeros.len() + number.len() > 0,
        forall|i: int| 0 <= i < padding.len() ==> #[trigger] padding[i] == '0',
        padding.len() + number.len() == 4 || (padding.len() == 0 && number.len() > 4),
    ensures
        normalized(left + (prefix + (zeros + number)) + right) == padding + number,
{
    reveal_strlit("0");
    lemma_spellings_agree(left, prefix, zeros + number, right);
    lemma_leading_zeros_agree(zeros, number);
    if starts_with(number, "0"@) {
        assert(number.take(1)[0] == number[0]);
    }
    assert(stripped(number, "0"@) == number);
    assert(zero_padded(number) =~= padding + number);
}

/// Where one of the ids asked for is known, a codepage is offered exactly where one of them spells
/// its id, and otherwise every codepage is.
pub proof fn lemma_offered_exactly_where_spelled(requested: Seq<Seq<char>>, page: Codepage)
    requires
        all_codepages().contains(page),
    ensures
        ({
            let some_known = exists|i: int|
                0 <= i < requested.len() && all_ids().contains(
                    normalized(#[trigger] requested[i]),
                );
            enabled(requested).contains(page) <==> (!some_known || exists|i: int|
                0 <= i < requested.len() && normalized(#[trigger] requested[i]) == page.id@)
        }),
{
    if exists|i: int|
        0 <= i < requested.len() && all_ids().contains(normalized(#[trigger] requested[i])) {
        let i = choose|i: int|
            0 <= i < requested.len() && all_ids().contains(normalized(#[trigger] requested[i]));
        assert(known(requested[i]));
        lemma_enabled_are_the_wanted(requested, page);
    } else {
        assert forall|i: int| 0 <= i < requested.len() implies !known(#[trigger] requested[i]) by {
            assert(!all_ids().contains(normalized(requested[i])));
        }
        lemma_all_unknown_enables_all(requested);
    }
}

/// Where a settings value may hold its list, and what counts as none: the list stands under
/// `codepages`, in an `ebcdic` section where there is one, or is the only item of an array in place
/// of such an object; it is a list of nothing but texts.
pub proof fn lemma_settings_shapes(
    members: Map<Seq<char>, Json>,
    payload: Json,
    list: Seq<Json>,
    texts: Seq<Seq<char>>,
)
    requires
        texts.len() == list.len(),
        forall|i: int| 0 <= i < list.len() ==> #[trigger] list[i] == Json::Text(texts[i]),
    ensures
        ({
            let object = Json::Object(members);
            let has_section = members.dom().contains("ebcdic"@);
            let has_list = members.dom().contains("codepages"@);
            &&& has_section ==> scoped(object) == members["ebcdic"@]
            &&& !has_section ==> scoped(object) == object
            &&& !(payload is Object) ==> scoped(payload) == payload
            &&& has_list && members["codepages"@] == Json::List(list) ==> listed(object) == texts
            &&& !has_list ==> listed(object).len() == 0
            &&& listed(Json::List(seq![Json::List(list)])) == texts
            &&& (payload is Null || payload is Bool || payload is Number || payload is Text)
                ==> listed(payload).len() == 0
        }),
{
    assert(Json::List(list).texts() == Some(texts)) by {
        assert(list.map_values(|item: Json| item->Text_0) =~= texts);
    }
}

/// A list with anything but texts in it, and what is no list at all, counts as none.
pub proof fn lemma_malformed_lists_count_as_none(
    members: Map<Seq<char>, Json>,
    malformed: Json,
    items: Seq<Json>,
)
    requires
        malformed matches Json::List(list) ==> exists|i: int|
            0 <= i < list.len() && !(#[trigger] list[i] is Text),
    ensures
        members.dom().contains("codepages"@) && members["codepages"@] == malformed ==> listed(
            Json::Object(members),
        ).len() == 0,
        listed(Json::List(seq![malformed])).len() == 0,
        items.len() != 1 ==> listed(Json::List(items)).len() == 0,
{
    assert(malformed.texts() is None);
    assert(seq![malformed][0] == malformed);
}

/// How any request is read: white space off, capitals made small, every leading `cp`, then `ibm-`,
/// then `ibm`, then zero off, and what is left filled up with zeros to four.
pub proof fn lemma_normalized_in_steps(requested: Seq<char>)
    ensures
        ({
            let small = lowered(trimmed(requested));
            let rest = stripped(
                stripped(stripped(stripped(small, "cp"@), "ibm-"@), "ibm"@),
                "0"@,
            );
            let id = normalized(requested);
            &&& rest.len() >= 4 ==> id == rest
            &&& rest.len() < 4 ==> id.len() == 4 && id.skip(4 - rest.len()) == rest && forall|i: int|
                0 <= i < 4 - rest.len() ==> #[trigger] id[i] == '0'
        }),
{
    let rest = significant(requested);
    if rest.len() < 4 {
        assert(normalized(requested).skip(4 - rest.len()) =~= rest);
    }
}

} // verus!
