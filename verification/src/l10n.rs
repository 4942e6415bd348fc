//! Translations: gettext catalogs per locale, the choice of a catalog for a
//! requested locale, and the translation of messages with their arguments.
use gettext::Catalog;
use vstd::prelude::*;
use crate::format::{format_positional, format_spec, positional_args, render_template};
use crate::mofile::{mo_file_parse_safe, mo_plural_rule_total};
use crate::text::{decimal, push_str, same_text, u64_to_text};

verus! {

#[verifier::external_type_specification]
#[verifier::external_body]
pub struct ExCatalog(Catalog);

/// The locale used where no requested locale is available.
pub const DEFAULT_LANGID: &'static str = "en";

/// The environment variable that selects the locale.
pub const ENV_VAR_DANGERZONE_LANGID: &'static str = "DANGERZONE_LANGID";

/// The translations a catalog holds: for each message id, its translated
/// forms (singular first, then the plural forms).
pub uninterp spec fn catalog_forms(c: Catalog) -> Map<Seq<char>, Seq<Seq<char>>>;

/// The translations of the catalog parsed from the MO file `data`, or `None`
/// where `data` is no valid MO file.
pub uninterp spec fn mo_file_forms(data: Seq<u8>) -> Option<Map<Seq<char>, Seq<Seq<char>>>>;

/// The locales that `fluent_langneg::negotiate_languages` chooses, with the
/// `Matching` strategy, among `available` for the locale `requested`, with
/// `default` as the default locale; each rendered as text.
pub uninterp spec fn negotiated_locales(requested: Seq<char>, available: Seq<Seq<char>>, default: Seq<char>) -> Seq<Seq<char>>;

/// What `Catalog::gettext` gives: the first translated form of `msg`, or
/// `msg` itself where it has none.
pub open spec fn gettext_spec(forms: Map<Seq<char>, Seq<Seq<char>>>, msg: Seq<char>) -> Seq<char> {
    if forms.contains_key(msg) && forms[msg].len() > 0 {
        forms[msg][0]
    } else {
        msg
    }
}

/// The untranslated form that `Catalog::ngettext` falls back to.
pub open spec fn plural_fallback(msg_id: Seq<char>, msg_id_plural: Seq<char>, n: u64) -> Seq<char> {
    if n == 1 { msg_id } else { msg_id_plural }
}

/// The index of the plural form that the catalog's plural rule gives for
/// `n`; `None` where evaluating the rule takes a remainder by zero, on which
/// `Catalog::ngettext` panics.
pub uninterp spec fn plural_index(c: Catalog, n: u64) -> Option<nat>;

/// What `Catalog::ngettext` gives where the plural rule chose the form of
/// index `index`: that translated form of `msg_id`, or the untranslated
/// form for `n` where `msg_id` has no form of that index.
pub open spec fn plural_form(forms: Map<Seq<char>, Seq<Seq<char>>>, msg_id: Seq<char>, msg_id_plural: Seq<char>, n: u64, index: nat) -> Seq<char> {
    if forms.contains_key(msg_id) && index < forms[msg_id].len() {
        forms[msg_id][index as int]
    } else {
        plural_fallback(msg_id, msg_id_plural, n)
    }
}

/// The plural rule used where a catalog states none: the first form for one,
/// the second otherwise.
pub open spec fn default_plural_index(n: u64) -> Option<nat> {
    Some(if n == 1 { 0nat } else { 1nat })
}

/// The locale and the bytes of each MO file of `data`.
pub open spec fn locale_files(data: Seq<(&str, &[u8])>) -> Seq<(Seq<char>, Seq<u8>)> {
    data.map_values(|e: (&str, &[u8])| (e.0@, e.1@))
}

/// The catalogs of `m` after the MO files of `files` are loaded in order:
/// each file that parses gives its locale its translations, in place of any
/// earlier ones; a file that does not parse changes nothing.
pub open spec fn loaded_catalogs(
    m: Map<Seq<char>, Map<Seq<char>, Seq<Seq<char>>>>,
    files: Seq<(Seq<char>, Seq<u8>)>,
) -> Map<Seq<char>, Map<Seq<char>, Seq<Seq<char>>>>
    decreases files.len(),
{
    if files.len() == 0 {
        m
    } else {
        let before = loaded_catalogs(m, files.drop_last());
        match mo_file_forms(files.last().1) {
            Some(forms) => before.insert(files.last().0, forms),
            None => before,
        }
    }
}

/// Of the MO files loaded for one locale, the last that parses gives that
/// locale its translations.
pub proof fn law_last_loaded_file_wins(
    m: Map<Seq<char>, Map<Seq<char>, Seq<Seq<char>>>>,
    files: Seq<(Seq<char>, Seq<u8>)>,
    i: int,
)
    requires
        0 <= i < files.len(),
        mo_file_forms(files[i].1) is Some,
        forall|j: int| i < j < files.len() && #[trigger] files[j].0 == files[i].0 ==> mo_file_forms(files[j].1) is None,
    ensures
        loaded_catalogs(m, files).contains_key(files[i].0),
        loaded_catalogs(m, files)[files[i].0] == mo_file_forms(files[i].1).unwrap(),
    decreases files.len(),
{
    if i < files.len() - 1 {
        let rest = files.drop_last();
        assert forall|j: int| i < j < rest.len() && #[trigger] rest[j].0 == rest[i].0 implies mo_file_forms(rest[j].1) is None by {
            assert(rest[j] == files[j]);
        }
        law_last_loaded_file_wins(m, rest, i);
        assert(rest[i] == files[i]);
        let last = files.last();
        assert(last == files[files.len() - 1]);
    }
}

/// A locale for which no MO file of `files` parses keeps its translations.
pub proof fn law_unloaded_locale_is_kept(
    m: Map<Seq<char>, Map<Seq<char>, Seq<Seq<char>>>>,
    files: Seq<(Seq<char>, Seq<u8>)>,
    locale: Seq<char>,
)
    requires
        forall|j: int| 0 <= j < files.len() && #[trigger] files[j].0 == locale ==> mo_file_forms(files[j].1) is None,
    ensures
        loaded_catalogs(m, files).contains_key(locale) == m.contains_key(locale),
        m.contains_key(locale) ==> loaded_catalogs(m, files)[locale] == m[locale],
    decreases files.len(),
{
    if files.len() > 0 {
        let rest = files.drop_last();
        assert forall|j: int| 0 <= j < rest.len() && #[trigger] rest[j].0 == locale implies mo_file_forms(rest[j].1) is None by {
            assert(rest[j] == files[j]);
        }
        law_unloaded_locale_is_kept(m, rest, locale);
        assert(files.last() == files[files.len() - 1]);
    }
}

/// `Catalog::gettext`.
#[verifier::external_body]
fn catalog_gettext(c: &Catalog, msg: &str) -> (r: String)
    ensures
        r@ == gettext_spec(catalog_forms(*c), msg@),
{
    c.gettext(msg).to_string()
}

/// `Catalog::ngettext`: the form that the catalog's plural rule picks for
/// `n`, or `msg_id` for one and `msg_id_plural` otherwise where that form is
/// missing. The call panics where the rule takes a remainder by zero, so the
/// rule must give an index for `n`.
#[verifier::external_body]
fn catalog_ngettext(c: &Catalog, msg_id: &str, msg_id_plural: &str, n: u64) -> (r: String)
    requires
        plural_index(*c, n) is Some,
    ensures
        r@ == plural_form(catalog_forms(*c), msg_id@, msg_id_plural@, n, plural_index(*c, n)->0),
{
    c.ngettext(msg_id, msg_id_plural, n).to_string()
}

/// `Catalog::clone`: the same translations and plural rule.
#[verifier::external_body]
fn catalog_clone(c: &Catalog) -> (r: Catalog)
    ensures
        catalog_forms(r) == catalog_forms(*c),
        forall|n: u64| #[trigger] plural_index(r, n) == plural_index(*c, n),
{
    c.clone()
}

/// No translation at all.
pub open spec fn no_forms() -> Map<Seq<char>, Seq<Seq<char>>> {
    Map::empty()
}

/// `Catalog::empty`: a catalog with no translation, whose plural rule is
/// the default one.
#[verifier::external_body]
fn catalog_empty() -> (r: Catalog)
    ensures
        catalog_forms(r) == no_forms(),
        forall|n: u64| #[trigger] plural_index(r, n) == default_plural_index(n),
{
    Catalog::empty()
}

/// `Catalog::parse` over the bytes of an MO file. The parser slices the
/// plural rule of the header by character positions and sums offsets read
/// from the file; it panics on some rules and, on 32-bit machines, on some
/// offsets, so the file must lie in the class that `mo_file_parse_safe`
/// describes. Where every remainder of the header's rule is by a number
/// that is not zero, the catalog's plural rule gives an index for every
/// count; otherwise the rule read from the file is not stated.
#[verifier::external_body]
fn catalog_parse(data: &[u8]) -> (r: Option<Catalog>)
    requires
        mo_file_parse_safe(data@),
    ensures
        match r {
            Some(c) => mo_file_forms(data@) == Some(catalog_forms(c)),
            None => mo_file_forms(data@) is None,
        },
        r is Some && mo_plural_rule_total(data@) ==> forall|n: u64| #[trigger] plural_index(r->0, n) is Some,
{
    Catalog::parse(std::io::Cursor::new(data)).ok()
}

/// `fluent_langneg::negotiate_languages` with the `Matching` strategy, over
/// the locales read from `requested`, `available` and `default` (those that
/// are no valid locale are left out), the chosen ones rendered as text.
#[verifier::external_body]
fn negotiate_locales(requested: &str, available: &Vec<String>, default: &str) -> (r: Vec<String>)
    ensures
        r@.map_values(|s: String| s@) == negotiated_locales(requested@, available@.map_values(|s: String| s@), default@),
{
    let requested_ids = fluent_langneg::convert_vec_str_to_langids_lossy(&[requested]);
    let available_ids = fluent_langneg::convert_vec_str_to_langids_lossy(available);
    let default_id: Option<fluent_langneg::LanguageIdentifier> = default.parse().ok();
    fluent_langneg::negotiate_languages(
        &requested_ids,
        &available_ids,
        default_id.as_ref(),
        fluent_langneg::NegotiationStrategy::Matching,
    ).into_iter().map(|l| l.to_string()).collect()
}

// ---------------------------------------------------------------------------
// Catalogs per locale

/// The catalogs loaded for each locale.
pub struct CatalogRegistry {
    entries: Vec<(String, Catalog)>,
}

impl CatalogRegistry {
    /// The locales with a catalog, in the order they were first loaded.
    pub closed spec fn locales(&self) -> Seq<Seq<char>> {
        self.entries@.map_values(|e: (String, Catalog)| e.0@)
    }

    /// The translations of the catalog of locale `i` in `locales()`.
    pub closed spec fn forms_at(&self, i: int) -> Map<Seq<char>, Seq<Seq<char>>> {
        catalog_forms(self.entries@[i].1)
    }

    /// No locale has two catalogs.
    pub closed spec fn wf(&self) -> bool {
        forall|i: int, j: int| 0 <= i < j < self.entries@.len() ==> self.entries@[i].0@ != self.entries@[j].0@
    }

    /// The translations of each locale with a catalog.
    pub closed spec fn catalogs(&self) -> Map<Seq<char>, Map<Seq<char>, Seq<Seq<char>>>> {
        Map::new(|l: Seq<char>| self.locales().contains(l), |l: Seq<char>| self.forms_at(self.locales().index_of(l)))
    }

    proof fn lemma_index_of(&self, l: Seq<char>, j: int)
        requires
            self.wf(),
            0 <= j < self.locales().len(),
            self.locales()[j] == l,
        ensures
            self.locales().index_of(l) == j,
            self.catalogs().contains_key(l),
            self.catalogs()[l] == self.forms_at(j),
    {
        assert(self.locales().contains(l));
        let k = self.locales().index_of(l);
        assert(self.locales()[k] == l);
        if k != j {
            assert(self.entries@[k].0@ == l && self.entries@[j].0@ == l);
            if k < j {
                assert(self.entries@[k].0@ != self.entries@[j].0@);
            } else {
                assert(self.entries@[j].0@ != self.entries@[k].0@);
            }
        }
    }

    /// A registry with no catalog.
    pub fn new() -> (r: Self)
        ensures
            r.wf(),
            r.locales().len() == 0,
            r.catalogs() == Map::<Seq<char>, Map<Seq<char>, Seq<Seq<char>>>>::empty(),
    {
        let r = CatalogRegistry { entries: Vec::new() };
        assert(r.catalogs() =~= Map::<Seq<char>, Map<Seq<char>, Seq<Seq<char>>>>::empty());
        r
    }

    /// The number of locales with a catalog.
    pub fn len(&self) -> (n: usize)
        ensures
            n == self.locales().len(),
    {
        self.entries.len()
    }

    /// The position of the catalog of `locale`.
    pub fn position(&self, locale: &str) -> (r: Option<usize>)
        ensures
            match r {
                Some(i) => i < self.locales().len() && self.locales()[i as int] == locale@,
                None => !self.locales().contains(locale@),
            },
    {
        let mut i: usize = 0;
        while i < self.entries.len()
            invariant
                i <= self.entries@.len(),
                forall|k: int| 0 <= k < i ==> self.entries@[k].0@ != locale@,
            decreases self.entries.len() - i,
        {
            if same_text(self.entries[i].0.as_str(), locale) {
                assert(self.locales()[i as int] == locale@);
                return Some(i);
            }
            i = i + 1;
        }
        proof {
            if self.locales().contains(locale@) {
                let k = choose|k: int| 0 <= k < self.locales().len() && self.locales()[k] == locale@;
                assert(self.entries@[k].0@ == locale@);
            }
        }
        None
    }

    /// Keeps `catalog` as the catalog of `locale`, in place of any earlier one.
    pub fn insert(&mut self, locale: String, catalog: Catalog)
        requires
            old(self).wf(),
        ensures
            final(self).wf(),
            old(self).locales().contains(locale@) ==> final(self).locales() == old(self).locales(),
            !old(self).locales().contains(locale@) ==> final(self).locales() == old(self).locales().push(locale@),
            exists|i: int| 0 <= i < final(self).locales().len() && final(self).locales()[i] == locale@
                && final(self).forms_at(i) == catalog_forms(catalog),
            forall|i: int| 0 <= i < old(self).locales().len() && old(self).locales()[i] != locale@
                ==> final(self).forms_at(i) == old(self).forms_at(i),
            final(self).locales().contains(locale@),
            forall|l: Seq<char>| old(self).locales().contains(l) ==> #[trigger] final(self).locales().contains(l),
            final(self).catalogs() == old(self).catalogs().insert(locale@, catalog_forms(catalog)),
    {
        let ghost forms = catalog_forms(catalog);
        match self.position(locale.as_str()) {
            Some(i) => {
                let ghost before = self.entries@;
                self.entries.set(i, (locale, catalog));
                proof {
                    assert forall|k: int| 0 <= k < self.entries@.len() implies #[trigger] self.locales()[k] == old(self).locales()[k] by {
                        if k != i {
                            assert(self.entries@[k] == before[k]);
                        }
                    }
                    assert(self.locales() =~= old(self).locales());
                    assert forall|a: int, b: int| 0 <= a < b < self.entries@.len() implies self.entries@[a].0@ != self.entries@[b].0@ by {
                        assert(self.locales()[a] == old(self).locales()[a]);
                        assert(self.locales()[b] == old(self).locales()[b]);
                        assert(old(self).locales()[a] == before[a].0@);
                        assert(old(self).locales()[b] == before[b].0@);
                    }
                    assert(self.locales()[i as int] == locale@);
                    assert(self.forms_at(i as int) == forms);
                    assert forall|l: Seq<char>| old(self).locales().contains(l) implies #[trigger] self.locales().contains(l) by {
                        let j = choose|j: int| 0 <= j < old(self).locales().len() && old(self).locales()[j] == l;
                        assert(self.locales()[j] == l);
                    }
                    self.lemma_index_of(locale@, i as int);
                    assert forall|l: Seq<char>| #[trigger] self.catalogs().contains_key(l) == old(self).catalogs().insert(locale@, forms).contains_key(l) by {
                        if l == locale@ {
                        } else if old(self).locales().contains(l) {
                            assert(self.locales().contains(l));
                        } else if self.locales().contains(l) {
                            let j = choose|j: int| 0 <= j < self.locales().len() && self.locales()[j] == l;
                            assert(old(self).locales()[j] == l);
                        }
                    }
                    assert forall|l: Seq<char>| #[trigger] self.catalogs().contains_key(l) && l != locale@ implies self.catalogs()[l] == old(self).catalogs()[l] by {
                        let j = choose|j: int| 0 <= j < self.locales().len() && self.locales()[j] == l;
                        self.lemma_index_of(l, j);
                        old(self).lemma_index_of(l, j);
                        assert(self.entries@[j] == before[j]);
                    }
                    assert(self.catalogs() =~= old(self).catalogs().insert(locale@, forms));
                }
            },
            None => {
                let ghost before = self.entries@;
                self.entries.push((locale, catalog));
                proof {
                    let n = before.len() as int;
                    assert forall|k: int| 0 <= k < n implies #[trigger] self.locales()[k] == old(self).locales()[k] by {
                        assert(self.entries@[k] == before[k]);
                    }
                    assert(self.locales() =~= old(self).locales().push(locale@));
                    assert forall|a: int, b: int| 0 <= a < b < self.entries@.len() implies self.entries@[a].0@ != self.entries@[b].0@ by {
                        if b == n {
                            assert(old(self).locales()[a] == before[a].0@);
                        } else {
                            assert(old(self).locales()[a] == before[a].0@);
                            assert(old(self).locales()[b] == before[b].0@);
                        }
                    }
                    assert(self.locales()[n] == locale@);
                    assert(self.forms_at(n) == forms);
                    assert forall|k: int| 0 <= k < n implies #[trigger] self.forms_at(k) == old(self).forms_at(k) by {
                        assert(self.entries@[k] == before[k]);
                    }
                    assert forall|l: Seq<char>| old(self).locales().contains(l) implies #[trigger] self.locales().contains(l) by {
                        let j = choose|j: int| 0 <= j < old(self).locales().len() && old(self).locales()[j] == l;
                        assert(self.locales()[j] == l);
                    }
                    self.lemma_index_of(locale@, n);
                    assert forall|l: Seq<char>| #[trigger] self.catalogs().contains_key(l) == old(self).catalogs().insert(locale@, forms).contains_key(l) by {
                        if l == locale@ {
                        } else if old(self).locales().contains(l) {
                            assert(self.locales().contains(l));
                        } else if self.locales().contains(l) {
                            let j = choose|j: int| 0 <= j < self.locales().len() && self.locales()[j] == l;
                            assert(j < n);
                            assert(old(self).locales()[j] == l);
                        }
                    }
                    assert forall|l: Seq<char>| #[trigger] self.catalogs().contains_key(l) && l != locale@ implies self.catalogs()[l] == old(self).catalogs()[l] by {
                        let j = choose|j: int| 0 <= j < self.locales().len() && self.locales()[j] == l;
                        assert(j < n);
                        self.lemma_index_of(l, j);
                        old(self).lemma_index_of(l, j);
                        assert(self.entries@[j] == before[j]);
                    }
                    assert(self.catalogs() =~= old(self).catalogs().insert(locale@, forms));
                }
            },
        }
    }

    /// Parses each MO file of `locale_data` and keeps its catalog for its
    /// locale; a file that does not parse is left out.
    pub fn load_translations(&mut self, locale_data: &Vec<(&str, &[u8])>)
        requires
            old(self).wf(),
            forall|i: int| 0 <= i < locale_data@.len() ==> mo_file_parse_safe(#[trigger] locale_data@[i].1@),
        ensures
            final(self).wf(),
            final(self).catalogs() == loaded_catalogs(old(self).catalogs(), locale_files(locale_data@)),
            forall|i: int| 0 <= i < locale_data@.len() && mo_file_forms(locale_data@[i].1@) is Some
                ==> #[trigger] final(self).locales().contains(locale_data@[i].0@),
    {
        let ghost files = locale_files(locale_data@);
        let mut i: usize = 0;
        while i < locale_data.len()
            invariant
                self.wf(),
                i <= locale_data@.len(),
                files == locale_files(locale_data@),
                forall|j: int| 0 <= j < locale_data@.len() ==> mo_file_parse_safe(#[trigger] locale_data@[j].1@),
                self.catalogs() == loaded_catalogs(old(self).catalogs(), files.take(i as int)),
                forall|k: int| 0 <= k < i && mo_file_forms(locale_data@[k].1@) is Some
                    ==> #[trigger] self.locales().contains(locale_data@[k].0@),
            decreases locale_data.len() - i,
        {
            let (locale_id, bytes) = locale_data[i];
            proof {
                assert(files.take(i + 1).drop_last() =~= files.take(i as int));
                assert(files.take(i + 1).last() == (locale_id@, bytes@));
            }
            match catalog_parse(bytes) {
                Some(catalog) => {
                    let mut locale = String::new();
                    push_str(&mut locale, locale_id);
                    let ghost before = self.locales();
                    self.insert(locale, catalog);
                    proof {
                        assert forall|k: int| 0 <= k < i + 1 && mo_file_forms(locale_data@[k].1@) is Some
                            implies #[trigger] self.locales().contains(locale_data@[k].0@) by {
                            if k < i {
                                assert(before.contains(locale_data@[k].0@));
                            }
                        }
                    }
                },
                None => {},
            }
            i = i + 1;
        }
        assert(files.take(i as int) =~= files);
    }

    /// The locale that requests for `requested_locale` are served in: the
    /// first locale that negotiation with the loaded locales gives, where
    /// there is one and it has a catalog.
    pub fn select(&self, requested_locale: &str) -> (r: Option<usize>)
        requires
            self.wf(),
        ensures
            match r {
                Some(i) => i < self.locales().len()
                    && negotiated_locales(requested_locale@, self.locales(), DEFAULT_LANGID@).len() > 0
                    && self.locales()[i as int] == negotiated_locales(requested_locale@, self.locales(), DEFAULT_LANGID@)[0],
                None => negotiated_locales(requested_locale@, self.locales(), DEFAULT_LANGID@).len() == 0
                    || !self.locales().contains(negotiated_locales(requested_locale@, self.locales(), DEFAULT_LANGID@)[0]),
            },
    {
        let mut keys: Vec<String> = Vec::new();
        let mut i: usize = 0;
        while i < self.entries.len()
            invariant
                i <= self.entries@.len(),
                keys@.len() == i,
                forall|k: int| 0 <= k < i ==> #[trigger] keys@[k]@ == self.entries@[k].0@,
            decreases self.entries.len() - i,
        {
            keys.push(self.entries[i].0.clone());
            i = i + 1;
        }
        assert(keys@.map_values(|s: String| s@) =~= self.locales());
        let supported = negotiate_locales(requested_locale, &keys, DEFAULT_LANGID);
        if supported.len() == 0 {
            assert(supported@.map_values(|s: String| s@).len() == 0);
            return None;
        }
        assert(supported@.map_values(|s: String| s@)[0] == supported@[0]@);
        self.position(supported[0].as_str())
    }

    /// The translations for `requested_locale`: those of the catalog of the
    /// locale that `select` gives.
    pub fn new_translations(&self, requested_locale: &str) -> (r: Option<GettextTranslations>)
        requires
            self.wf(),
        ensures
            match self.select_spec(requested_locale@) {
                Some(i) => r matches Some(t) && t.locale@ == self.locales()[i] && catalog_forms(t.catalog) == self.forms_at(i),
                None => r is None,
            },
    {
        match self.select(requested_locale) {
            None => None,
            Some(i) => {
                proof {
                    let l = self.locales()[i as int];
                    let j = self.locales().index_of(l);
                    assert(self.locales().contains(l));
                    assert(0 <= j < self.locales().len() && self.locales()[j] == l);
                    if j != i {
                        assert(self.entries@[j].0@ == self.locales()[j]);
                        assert(self.entries@[i as int].0@ == self.locales()[i as int]);
                        if j < i {
                            assert(self.entries@[j].0@ != self.entries@[i as int].0@);
                        } else {
                            assert(self.entries@[i as int].0@ != self.entries@[j].0@);
                        }
                    }
                }
                let locale = self.entries[i].0.clone();
                let catalog = catalog_clone(&self.entries[i].1);
                Some(GettextTranslations { locale, catalog })
            },
        }
    }

    /// The messages for `requested_locale`: those of the catalog of the
    /// locale that `select` gives.
    pub fn new_messages(&self, requested_locale: &str) -> (r: Option<Messages>)
        requires
            self.wf(),
        ensures
            match self.select_spec(requested_locale@) {
                Some(i) => r matches Some(m) && m.locale@ == self.locales()[i] && catalog_forms(m.catalog) == self.forms_at(i),
                None => r is None,
            },
    {
        match self.new_translations(requested_locale) {
            None => None,
            Some(t) => Some(Messages::from_catalog(t.locale, t.catalog)),
        }
    }

    /// The position of the catalog that `select` gives.
    pub open spec fn select_spec(&self, requested: Seq<char>) -> Option<int> {
        let chosen = negotiated_locales(requested, self.locales(), DEFAULT_LANGID@);
        if chosen.len() > 0 && self.locales().contains(chosen[0]) {
            Some(self.locales().index_of(chosen[0]))
        } else {
            None
        }
    }
}

// ---------------------------------------------------------------------------
// Translations

/// Translation of the user-facing messages.
pub trait Translations {
    /// Whether the plural rule of the translations gives a form for `n`.
    spec fn plural_defined(&self, n: u64) -> bool;

    /// The locale of the translations.
    fn langid(&self) -> String;

    /// The translation of `msg`.
    fn gettext(&self, msg: &str) -> String;

    /// The translation of `template`, its placeholders replaced by `params`.
    fn gettext_fmt(&self, template: &str, params: Vec<&str>) -> String;

    /// The translation of `msgid` or `msgid_plural` for `n`, its `{n}`
    /// placeholder replaced by `n`.
    fn ngettext(&self, msgid: &str, msgid_plural: &str, n: u64) -> String
        requires
            self.plural_defined(n),
    ;

    /// As `ngettext`, the other placeholders replaced by `params`.
    fn ngettext_fmt(&self, msgid: &str, msgid_plural: &str, n: u64, params: Vec<&str>) -> String
        requires
            self.plural_defined(n),
    ;
}

/// The text given where more than four arguments are passed.
pub open spec fn too_many_params() -> Seq<char> {
    "too-many-params-4-values-max"@
}

/// What `gettext_fmt` gives for the translated template `translated`.
pub open spec fn gettext_fmt_spec(translated: Seq<char>, params: Seq<&str>) -> Seq<char> {
    if params.len() == 0 {
        translated
    } else if params.len() <= 4 {
        format_spec(translated, positional_args(params))
    } else {
        too_many_params()
    }
}

/// The arguments of a plural message: `n` (named `n`) then `params`.
pub open spec fn plural_args(n: u64, params: Seq<&str>) -> Seq<(Seq<char>, Seq<char>)> {
    seq![("n"@, decimal(n as nat))] + positional_args(params)
}

/// What `ngettext_fmt` gives for the chosen form `chosen`.
pub open spec fn ngettext_fmt_spec(chosen: Seq<char>, n: u64, params: Seq<&str>) -> Seq<char> {
    if params.len() <= 4 {
        format_spec(chosen, plural_args(n, params))
    } else {
        too_many_params()
    }
}

/// Renders an already translated template with up to four positional
/// parameters.
pub fn fill_template(translated: &str, params: &Vec<&str>) -> (r: String)
    ensures
        r@ == gettext_fmt_spec(translated@, params@),
{
    if params.len() == 0 {
        let mut r = String::new();
        push_str(&mut r, translated);
        r
    } else if params.len() <= 4 {
        format_positional(translated, params.as_slice())
    } else {
        let mut r = String::new();
        push_str(&mut r, "too-many-params-4-values-max");
        r
    }
}

/// Renders an already chosen plural form with `n` and up to four positional
/// parameters.
pub fn fill_plural(chosen: &str, n: u64, params: &Vec<&str>) -> (r: String)
    ensures
        r@ == ngettext_fmt_spec(chosen@, n, params@),
{
    if params.len() <= 4 {
        let n_text = u64_to_text(n);
        let n_str = n_text.as_str();
        let mut args: Vec<(&str, &str)> = Vec::new();
        args.push(("n", n_str));
        let mut i: usize = 0;
        while i < params.len()
            invariant
                i <= params@.len(),
                args@.len() == i + 1,
                args@[0] == ("n", n_str),
                n_str@ == decimal(n as nat),
                forall|k: int| 1 <= k <= i ==> #[trigger] args@[k] == ("", params@[k - 1]),
            decreases params.len() - i,
        {
            args.push(("", params[i]));
            i = i + 1;
        }
        proof {
            reveal_strlit("");
            reveal_strlit("n");
            assert forall|k: int| 0 <= k < args@.len() implies
                #[trigger] crate::format::arg_views(args@)[k] == plural_args(n, params@)[k] by {
                if k == 0 {
                    assert(args@[0] == ("n", n_str));
                } else {
                    assert(args@[k] == ("", params@[k - 1]));
                    assert(""@ == Seq::<char>::empty());
                }
            }
            assert(crate::format::arg_views(args@) =~= plural_args(n, params@));
        }
        render_template(chosen, args.as_slice())
    } else {
        let mut r = String::new();
        push_str(&mut r, "too-many-params-4-values-max");
        r
    }
}

/// Translations from a gettext catalog.
pub struct GettextTranslations {
    pub locale: String,
    pub catalog: Catalog,
}

impl GettextTranslations {
    /// Translations of `locale` from `catalog`.
    pub fn new(locale: String, catalog: Catalog) -> (r: Self)
        ensures
            r.locale == locale,
            catalog_forms(r.catalog) == catalog_forms(catalog),
            forall|n: u64| #[trigger] plural_index(r.catalog, n) == plural_index(catalog, n),
    {
        GettextTranslations { locale, catalog }
    }

    /// Translations of `locale` from the MO file `data`, where it parses.
    /// Where the file's plural rule never takes a remainder by zero (which
    /// `has_total_plural_rule` tells), the rule gives a form for every count.
    pub fn from_mo_file(locale: String, data: &[u8]) -> (r: Option<Self>)
        requires
            mo_file_parse_safe(data@),
        ensures
            match r {
                Some(t) => mo_file_forms(data@) == Some(catalog_forms(t.catalog)) && t.locale == locale
                    && (mo_plural_rule_total(data@) ==> forall|n: u64| #[trigger] plural_index(t.catalog, n) is Some),
                None => mo_file_forms(data@) is None,
            },
    {
        match catalog_parse(data) {
            Some(catalog) => Some(GettextTranslations { locale, catalog }),
            None => None,
        }
    }

    /// Translations of `locale` without any translated message: every
    /// message is given untranslated.
    pub fn untranslated(locale: String) -> (r: Self)
        ensures
            r.locale == locale,
            catalog_forms(r.catalog) == no_forms(),
            forall|n: u64| #[trigger] plural_index(r.catalog, n) == default_plural_index(n),
    {
        GettextTranslations { locale, catalog: catalog_empty() }
    }

    /// A copy of the translations.
    pub fn duplicate(&self) -> (r: Self)
        ensures
            r.locale@ == self.locale@,
            catalog_forms(r.catalog) == catalog_forms(self.catalog),
            forall|n: u64| #[trigger] plural_index(r.catalog, n) == plural_index(self.catalog, n),
    {
        GettextTranslations { locale: self.locale.clone(), catalog: catalog_clone(&self.catalog) }
    }
}

impl Translations for GettextTranslations {
    open spec fn plural_defined(&self, n: u64) -> bool {
        plural_index(self.catalog, n) is Some
    }

    fn langid(&self) -> (r: String)
        ensures
            r@ == self.locale@,
    {
        self.locale.clone()
    }

    fn gettext(&self, msg: &str) -> (r: String)
        ensures
            r@ == gettext_spec(catalog_forms(self.catalog), msg@),
    {
        catalog_gettext(&self.catalog, msg)
    }

    fn gettext_fmt(&self, template: &str, params: Vec<&str>) -> (r: String)
        ensures
            params@.len() <= 4 ==> r@ == gettext_fmt_spec(gettext_spec(catalog_forms(self.catalog), template@), params@),
            params@.len() > 4 ==> r@ == too_many_params(),
    {
        if params.len() > 4 {
            let mut r = String::new();
            push_str(&mut r, "too-many-params-4-values-max");
            return r;
        }
        let translated = catalog_gettext(&self.catalog, template);
        fill_template(translated.as_str(), &params)
    }

    fn ngettext(&self, msgid: &str, msgid_plural: &str, n: u64) -> (r: String)
        ensures
            r@ == ngettext_fmt_spec(plural_form(catalog_forms(self.catalog), msgid@, msgid_plural@, n, plural_index(self.catalog, n)->0), n, Seq::empty()),
    {
        let chosen = catalog_ngettext(&self.catalog, msgid, msgid_plural, n);
        let none: Vec<&str> = Vec::new();
        fill_plural(chosen.as_str(), n, &none)
    }

    fn ngettext_fmt(&self, msgid: &str, msgid_plural: &str, n: u64, params: Vec<&str>) -> (r: String)
        ensures
            params@.len() <= 4 ==> r@ == ngettext_fmt_spec(plural_form(catalog_forms(self.catalog), msgid@, msgid_plural@, n, plural_index(self.catalog, n)->0), n, params@),
            params@.len() > 4 ==> r@ == too_many_params(),
    {
        if params.len() > 4 {
            let mut r = String::new();
            push_str(&mut r, "too-many-params-4-values-max");
            return r;
        }
        let chosen = catalog_ngettext(&self.catalog, msgid, msgid_plural, n);
        fill_plural(chosen.as_str(), n, &params)
    }
}

/// Messages of the user interface from a gettext catalog, by message key.
pub struct Messages {
    pub locale: String,
    pub catalog: Catalog,
}

impl Messages {
    /// Messages of `locale` from `catalog`.
    pub fn from_catalog(locale: String, catalog: Catalog) -> (r: Self)
        ensures
            r.locale == locale,
            catalog_forms(r.catalog) == catalog_forms(catalog),
    {
        Messages { locale, catalog }
    }

    /// Messages of `locale` without any translation: every key is given
    /// as it is.
    pub fn untranslated(locale: String) -> (r: Self)
        ensures
            r.locale == locale,
            catalog_forms(r.catalog) == no_forms(),
    {
        Messages { locale, catalog: catalog_empty() }
    }

    /// The locale of the messages.
    pub fn langid(&self) -> (r: String)
        ensures
            r@ == self.locale@,
    {
        self.locale.clone()
    }

    /// The message of key `key`.
    pub fn get_message(&self, key: &str) -> (r: String)
        ensures
            r@ == gettext_spec(catalog_forms(self.catalog), key@),
    {
        catalog_gettext(&self.catalog, key)
    }
}


// ---------------------------------------------------------------------------
// Translations of the web interface

/// The translations of the web interface (JSON documents) per locale.
pub struct UiTranslationRegistry {
    entries: Vec<(String, Vec<u8>)>,
}

impl UiTranslationRegistry {
    /// The locales, in the order they were loaded.
    pub closed spec fn locales(&self) -> Seq<Seq<char>> {
        self.entries@.map_values(|e: (String, Vec<u8>)| e.0@)
    }

    /// The document of the `i`-th locale.
    pub closed spec fn document_at(&self, i: int) -> Seq<u8> {
        self.entries@[i].1@
    }

    /// The registry of the documents `locale_data`, by locale.
    pub fn new(locale_data: &Vec<(&str, &[u8])>) -> (r: Self)
        ensures
            r.locales().len() == locale_data@.len(),
            forall|i: int| 0 <= i < locale_data@.len() ==> #[trigger] r.locales()[i] == locale_data@[i].0@
                && r.document_at(i) == locale_data@[i].1@,
    {
        let mut entries: Vec<(String, Vec<u8>)> = Vec::new();
        let mut i: usize = 0;
        while i < locale_data.len()
            invariant
                i <= locale_data@.len(),
                entries@.len() == i,
                forall|k: int| 0 <= k < i ==> #[trigger] entries@[k].0@ == locale_data@[k].0@
                    && entries@[k].1@ == locale_data@[k].1@,
            decreases locale_data.len() - i,
        {
            let (locale, data) = locale_data[i];
            entries.push((locale.to_owned(), vstd::slice::slice_to_vec(data)));
            i = i + 1;
        }
        UiTranslationRegistry { entries }
    }

    /// The document of the locale that negotiation gives first for
    /// `locale`, where it was loaded (the first loaded where it was loaded
    /// twice).
    pub open spec fn translation_spec(&self, locale: Seq<char>) -> Option<Seq<u8>> {
        let chosen = negotiated_locales(locale, self.locales(), DEFAULT_LANGID@);
        if chosen.len() > 0 {
            match self.locales().index_of_first(chosen[0]) {
                Some(i) => Some(self.document_at(i)),
                None => None,
            }
        } else {
            None
        }
    }

    /// The translations of the web interface for `locale`.
    pub fn ui_translation_for(&self, locale: &str) -> (r: Option<Vec<u8>>)
        ensures
            match self.translation_spec(locale@) {
                Some(d) => r is Some && r->0@ == d,
                None => r is None,
            },
    {
        let mut keys: Vec<String> = Vec::new();
        let mut i: usize = 0;
        while i < self.entries.len()
            invariant
                i <= self.entries@.len(),
                keys@.len() == i,
                forall|k: int| 0 <= k < i ==> #[trigger] keys@[k]@ == self.entries@[k].0@,
            decreases self.entries.len() - i,
        {
            keys.push(self.entries[i].0.clone());
            i = i + 1;
        }
        assert(keys@.map_values(|s: String| s@) =~= self.locales());
        let supported = negotiate_locales(locale, &keys, DEFAULT_LANGID);
        if supported.len() == 0 {
            assert(supported@.map_values(|s: String| s@).len() == 0);
            return None;
        }
        assert(supported@.map_values(|s: String| s@)[0] == supported@[0]@);
        let target = supported[0].as_str();
        let ghost chosen = negotiated_locales(locale@, self.locales(), DEFAULT_LANGID@);
        assert(chosen.len() > 0 && target@ == chosen[0]);
        let mut j: usize = 0;
        while j < self.entries.len()
            invariant
                chosen == negotiated_locales(locale@, self.locales(), DEFAULT_LANGID@),
                chosen.len() > 0,
                target@ == chosen[0],
                j <= self.entries@.len(),
                forall|k: int| 0 <= k < j ==> #[trigger] self.locales()[k] != target@,
            decreases self.entries.len() - j,
        {
            if same_text(self.entries[j].0.as_str(), target) {
                proof {
                    let l = target@;
                    assert(self.locales()[j as int] == l);
                    self.locales().index_of_first_ensures(l);
                    let x = self.locales().index_of_first(l)->0;
                    assert(x == j) by {
                        if x < j {
                            assert(self.locales()[x] != target@);
                        } else if x > j {
                            assert(self.locales()[j as int] != l);
                        }
                    }
                }
                let d = vstd::slice::slice_to_vec(self.entries[j].1.as_slice());
                assert(d@ == self.document_at(j as int));
                return Some(d);
            }
            j = j + 1;
        }
        proof {
            self.locales().index_of_first_ensures(target@);
            if self.locales().contains(target@) {
                let x = self.locales().index_of(target@);
                assert(self.locales()[x] != target@);
            }
        }
        None
    }
}

} // verus!
