//! The translation catalog collaborator: a set of `(key, locale) -> template`
//! entries with key-as-template fallback when a pair is absent.

use vstd::prelude::*;

verus! {

/// A locale a translation template can be registered for.
#[derive(Clone, Copy, PartialEq, Eq, Structural, Debug)]
pub enum Locale {
    EnUs,
    EnGb,
    DeDe,
    FrFr,
    EsEs,
    PtBr,
    RuRu,
    ZhCn,
    JaJp,
    KoKr,
}

/// One template registration: the template for `key` in `locale`.
pub struct CatalogEntry {
    pub key: String,
    pub locale: Locale,
    pub template: String,
}

impl View for CatalogEntry {
    type V = (Seq<char>, Locale, Seq<char>);

    open spec fn view(&self) -> (Seq<char>, Locale, Seq<char>) {
        (self.key@, self.locale, self.template@)
    }
}

/// The template string for `(key, locale)`: the first matching entry, or the
/// key itself when no entry matches (degrade, never fail).
pub open spec fn lookup_spec(
    entries: Seq<(Seq<char>, Locale, Seq<char>)>,
    key: Seq<char>,
    locale: Locale,
) -> Seq<char>
    decreases entries.len(),
{
    if entries.len() == 0 {
        key
    } else if entries[0].0 == key && entries[0].1 == locale {
        entries[0].2
    } else {
        lookup_spec(entries.drop_first(), key, locale)
    }
}

/// The translation catalog: an ordered list of entries, searched front to back.
pub struct Catalog {
    pub entries: Vec<CatalogEntry>,
}

impl View for Catalog {
    type V = Seq<(Seq<char>, Locale, Seq<char>)>;

    open spec fn view(&self) -> Seq<(Seq<char>, Locale, Seq<char>)> {
        self.entries@.map(|i: int, e: CatalogEntry| e@)
    }
}

impl Catalog {
    /// An empty catalog: every lookup falls back to the key itself.
    pub fn new() -> (r: Catalog)
        ensures
            r@ == Seq::<(Seq<char>, Locale, Seq<char>)>::empty(),
    {
        let r = Catalog { entries: Vec::new() };
        proof {
            assert(r@ =~= Seq::<(Seq<char>, Locale, Seq<char>)>::empty());
        }
        r
    }

    /// Register `template` for `(key, locale)`, after the existing entries.
    pub fn add(&mut self, key: String, locale: Locale, template: String)
        ensures
            final(self)@ == old(self)@.push((key@, locale, template@)),
    {
        let ghost before = self@;
        self.entries.push(CatalogEntry { key, locale, template });
        proof {
            assert(final(self)@ =~= before.push(
                (final(self).entries@.last().key@, locale, final(self).entries@.last().template@),
            ));
        }
    }

    /// Look a template up, with key-as-template fallback.
    pub fn lookup(&self, key: &String, locale: Locale) -> (r: String)
        ensures
            r@ == lookup_spec(self@, key@, locale),
    {
        let mut i: usize = 0;
        proof {
            assert(self@.skip(0) =~= self@);
        }
        while i < self.entries.len()
            invariant
                0 <= i <= self.entries.len(),
                lookup_spec(self@, key@, locale) == lookup_spec(
                    self@.skip(i as int),
                    key@,
                    locale,
                ),
            decreases self.entries.len() - i,
        {
            let e = &self.entries[i];
            if e.key == *key && e.locale == locale {
                proof {
                    assert(self@.skip(i as int)[0] == self@[i as int]);
                }
                return e.template.clone();
            }
            proof {
                assert(self@.skip(i as int).drop_first() =~= self@.skip(i + 1));
                assert(self@.skip(i as int)[0] == self@[i as int]);
            }
            i = i + 1;
        }
        proof {
            assert(self@.skip(i as int) =~= Seq::<(Seq<char>, Locale, Seq<char>)>::empty());
        }
        key.clone()
    }
}

} // verus!
