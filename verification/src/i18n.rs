//! Translated user-facing texts, looked up by message id: the Fluent
//! messages file of the user's language (or of the fallback locale), and
//! the catalog of the texts that the library looks up.

use vstd::prelude::*;
use fluent_bundle::{FluentArgs, FluentBundle, FluentResource};
use unic_langid::LanguageIdentifier;

verus! {

/// What Fluent makes of message `id` in the messages file `source`, read
/// for the language `lang`, formatted with the named arguments `args`:
/// `None` when the language tag or the file does not parse, the file
/// defines a message twice, or `id` has no message with a value.
pub uninterp spec fn fluent_message(lang: Seq<char>, source: Seq<char>, id: Seq<char>, args: Seq<(Seq<char>, Seq<char>)>) -> Option<Seq<char>>;

/// The texts of a list of name and value pairs.
pub open spec fn text_pairs(v: Seq<(String, String)>) -> Seq<(Seq<char>, Seq<char>)> {
    v.map_values(|p: (String, String)| (p.0@, p.1@))
}

/// `fluent_bundle`: parse `lang` as a `LanguageIdentifier` and `source`
/// with `FluentResource::try_new`, add the resource to a new `FluentBundle`
/// for that language, and format the value of message `id` with
/// `format_pattern`, the arguments set one by one on a `FluentArgs`. A
/// failed step gives `None`. The result is named, not stated: it is
/// `fluent_message` of the arguments.
#[verifier::external_body]
fn fluent_format(lang: &String, source: &String, id: &String, args: &Vec<(String, String)>) -> (r: Option<String>)
    ensures
        match r {
            Some(t) => fluent_message(lang@, source@, id@, text_pairs(args@)) == Some(t@),
            None => fluent_message(lang@, source@, id@, text_pairs(args@)) is None,
        },
{
    let li: LanguageIdentifier = lang.parse().ok()?;
    let res = FluentResource::try_new(source.clone()).ok()?;
    let mut bundle: FluentBundle<FluentResource> = FluentBundle::new(vec![li]);
    bundle.add_resource(res).ok()?;
    let mut fargs = FluentArgs::new();
    for (k, v) in args.iter() {
        fargs.set(k.clone(), v.clone());
    }
    let pattern = bundle.get_message(id)?.value()?;
    let mut errors = vec![];
    Some(bundle.format_pattern(pattern, Some(&fargs), &mut errors).to_string())
}

/// The messages file in use and the language it is read for.
#[derive(Debug, Clone)]
pub struct Translations {
    pub lang: String,
    pub source: String,
}

/// The language that the fallback messages file is read for.
pub open spec fn fallback_lang() -> Seq<char> {
    "en_us"@
}

/// Choose the messages: the file of the user's language `lang` when it
/// could be read (`primary`), else the file of the "C" locale
/// (`fallback`), read as US English; `None` when neither could be read.
pub fn initialize_i18n(lang: String, primary: Option<String>, fallback: Option<String>) -> (r: Option<Translations>)
    ensures
        match primary {
            Some(text) => r == Some(Translations { lang, source: text }),
            None => match fallback {
                Some(text) => r is Some && r->0.lang@ == fallback_lang() && r->0.source == text,
                None => r is None,
            },
        },
{
    match primary {
        Some(text) => Some(Translations { lang, source: text }),
        None => match fallback {
            Some(text) => {
                proof {
                    reveal_strlit("en_us");
                }
                Some(Translations { lang: "en_us".to_owned(), source: text })
            },
            None => None,
        },
    }
}

impl Translations {
    /// The text of message `id`, formatted with the named arguments `args`.
    pub fn format(&self, id: &String, args: &Vec<(String, String)>) -> (r: Option<String>)
        ensures
            match r {
                Some(t) => fluent_message(self.lang@, self.source@, id@, text_pairs(args@)) == Some(t@),
                None => fluent_message(self.lang@, self.source@, id@, text_pairs(args@)) is None,
            },
    {
        fluent_format(&self.lang, &self.source, id, args)
    }

    /// The catalog of the texts of the messages `ids`, formatted without
    /// arguments: it knows exactly the listed ids that have a text, each
    /// with the text Fluent gives it.
    pub fn catalog(&self, ids: &Vec<String>) -> (c: MessageCatalog)
        ensures
            forall|k: Seq<char>| #[trigger] c.lookup(k) == (if exists|i: int| 0 <= i < ids@.len() && ids@[i]@ == k {
                fluent_message(self.lang@, self.source@, k, Seq::empty())
            } else {
                None
            }),
    {
        let mut c = MessageCatalog::new();
        let no_args: Vec<(String, String)> = Vec::new();
        assert(text_pairs(no_args@) =~= Seq::empty());
        let mut i: usize = 0;
        while i < ids.len()
            invariant
                i <= ids@.len(),
                no_args@.len() == 0,
                text_pairs(no_args@) == Seq::<(Seq<char>, Seq<char>)>::empty(),
                forall|k: Seq<char>| #[trigger] c.lookup(k) == (if exists|j: int| 0 <= j < i && ids@[j]@ == k {
                    fluent_message(self.lang@, self.source@, k, Seq::empty())
                } else {
                    None
                }),
            decreases ids@.len() - i,
        {
            let ghost before = c;
            match self.format(&ids[i], &no_args) {
                Some(t) => c.add(ids[i].clone(), t),
                None => {},
            }
            proof {
                assert forall|k: Seq<char>| #[trigger] c.lookup(k) == (if exists|j: int| 0 <= j < i + 1 && ids@[j]@ == k {
                    fluent_message(self.lang@, self.source@, k, Seq::empty())
                } else {
                    None
                }) by {
                    if exists|j: int| 0 <= j < i && ids@[j]@ == k {
                        let j = choose|j: int| 0 <= j < i && ids@[j]@ == k;
                        assert(0 <= j < i + 1 && ids@[j]@ == k);
                    } else if ids@[i as int]@ == k {
                        assert(0 <= i < i + 1 && ids@[i as int]@ == k);
                    } else {
                        if exists|j: int| 0 <= j < i + 1 && ids@[j]@ == k {
                            let j = choose|j: int| 0 <= j < i + 1 && ids@[j]@ == k;
                            assert(j < i);
                        }
                    }
                }
            }
            i = i + 1;
        }
        c
    }
}

/// The translation of `id` in `entries`: the text of the first entry with
/// that id.
pub open spec fn catalog_lookup(entries: Seq<(String, String)>, id: Seq<char>) -> Option<Seq<char>>
    decreases entries.len(),
{
    if entries.len() == 0 {
        None
    } else if entries[0].0@ == id {
        Some(entries[0].1@)
    } else {
        catalog_lookup(entries.drop_first(), id)
    }
}

/// A table of translated messages: pairs of message id and text in the
/// user's language.
#[derive(Debug, Clone)]
pub struct MessageCatalog {
    pub entries: Vec<(String, String)>,
}

impl MessageCatalog {
    /// The text that `id` translates to, if the catalog knows it.
    pub open spec fn lookup(&self, id: Seq<char>) -> Option<Seq<char>> {
        catalog_lookup(self.entries@, id)
    }

    /// An empty catalog.
    pub fn new() -> (c: MessageCatalog)
        ensures
            forall|id: Seq<char>| c.lookup(id) is None,
    {
        MessageCatalog { entries: Vec::new() }
    }

    /// Add a translation; an id added earlier keeps its first text.
    pub fn add(&mut self, id: String, text: String)
        ensures
            forall|k: Seq<char>| #[trigger] final(self).lookup(k) == (if old(self).lookup(k) is Some {
                old(self).lookup(k)
            } else if k == id@ {
                Some(text@)
            } else {
                None
            }),
    {
        let ghost old_entries = self.entries@;
        self.entries.push((id, text));
        proof {
            assert forall|k: Seq<char>| #[trigger] catalog_lookup(self.entries@, k) == (if catalog_lookup(old_entries, k) is Some {
                catalog_lookup(old_entries, k)
            } else if k == id@ {
                Some(text@)
            } else {
                None
            }) by {
                lemma_lookup_push(old_entries, (id, text), k);
            }
        }
    }

    /// The translation of `id`, if there is one.
    pub fn translate(&self, id: &String) -> (r: Option<String>)
        ensures
            match r {
                Some(t) => self.lookup(id@) == Some(t@),
                None => self.lookup(id@) is None,
            },
    {
        let mut i: usize = 0;
        assert(self.entries@.skip(0) =~= self.entries@);
        while i < self.entries.len()
            invariant
                i <= self.entries@.len(),
                catalog_lookup(self.entries@, id@) == catalog_lookup(self.entries@.skip(i as int), id@),
            decreases self.entries@.len() - i,
        {
            let ghost rest = self.entries@.skip(i as int);
            assert(rest[0] == self.entries@[i as int]);
            if self.entries[i].0 == *id {
                return Some(self.entries[i].1.clone());
            }
            assert(rest.drop_first() =~= self.entries@.skip(i + 1));
            i = i + 1;
        }
        None
    }
}

proof fn lemma_lookup_push(s: Seq<(String, String)>, e: (String, String), k: Seq<char>)
    ensures
        catalog_lookup(s.push(e), k) == (if catalog_lookup(s, k) is Some {
            catalog_lookup(s, k)
        } else if k == e.0@ {
            Some(e.1@)
        } else {
            None
        }),
    decreases s.len(),
{
    if s.len() == 0 {
        assert(s.push(e)[0] == e);
        assert(s.push(e).drop_first() =~= Seq::<(String, String)>::empty());
        assert(catalog_lookup(Seq::<(String, String)>::empty(), k) is None);
    } else {
        assert(s.push(e)[0] == s[0]);
        assert(s.push(e).drop_first() =~= s.drop_first().push(e));
        lemma_lookup_push(s.drop_first(), e, k);
    }
}

} // verus!
