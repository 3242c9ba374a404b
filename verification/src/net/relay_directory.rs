//! The Nostr relays the browser asks by default.
use vstd::prelude::*;

use crate::weburl::{url_parse, url_parse_outcome, ParsedUrl, UrlParseError, UrlParts};

verus! {

/// The relays used when no configuration names others.
pub const DEFAULT_RELAY_DAMUS: &'static str = "wss://relay.damus.io";

pub const DEFAULT_RELAY_NOS: &'static str = "wss://nos.lol";

/// Why the relay list could not be loaded.
#[derive(Debug, Clone, PartialEq, Eq)]
pub enum RelayDirectoryError {
    /// The configuration file could not be read.
    Io(String),
    /// A relay address is not a URL.
    InvalidUrl(UrlParseError),
    /// The configuration is not valid YAML of the expected shape.
    Yaml(String),
}

/// The relays to ask, as parsed URLs.
#[derive(Debug, Clone)]
pub struct RelayDirectory {
    relays: Vec<ParsedUrl>,
}

/// The default relay addresses, in order.
pub open spec fn default_relays() -> Seq<Seq<char>> {
    seq![DEFAULT_RELAY_DAMUS@, DEFAULT_RELAY_NOS@]
}

/// The parsed relay list: each address parsed in order; the first that fails is the error.
pub open spec fn parsed_relays(addrs: Seq<Seq<char>>) -> Result<Seq<UrlParts>, UrlParseError>
    decreases addrs.len(),
{
    if addrs.len() == 0 {
        Ok(Seq::empty())
    } else {
        match parsed_relays(addrs.drop_last()) {
            Err(e) => Err(e),
            Ok(prev) => match url_parse_outcome(addrs.last()) {
                Ok(p) => Ok(prev.push(p)),
                Err(e) => Err(e),
            },
        }
    }
}

pub open spec fn urls_view(v: Seq<ParsedUrl>) -> Seq<UrlParts> {
    v.map_values(|u: ParsedUrl| u.parts())
}

pub open spec fn strings_view(v: Seq<String>) -> Seq<Seq<char>> {
    v.map_values(|s: String| s@)
}

impl RelayDirectory {
    pub closed spec fn view(&self) -> Seq<UrlParts> {
        urls_view(self.relays@)
    }

    /// The directory for a configured relay list, or for the defaults when there is none.
    pub fn load(configured: Option<Vec<String>>) -> (r: Result<RelayDirectory, RelayDirectoryError>)
        ensures
            match parsed_relays(
                match configured {
                    Some(v) => strings_view(v@),
                    None => default_relays(),
                },
            ) {
                Ok(urls) => r matches Ok(d) && d.view() == urls,
                Err(e) => r matches Err(RelayDirectoryError::InvalidUrl(x)) && x == e,
            },
    {
        let ghost wanted = match &configured {
            Some(v) => strings_view(v@),
            None => default_relays(),
        };
        let addrs = match configured {
            Some(v) => v,
            None => {
                let mut v: Vec<String> = Vec::new();
                v.push(String::from_str(DEFAULT_RELAY_DAMUS));
                v.push(String::from_str(DEFAULT_RELAY_NOS));
                assert(strings_view(v@) =~= default_relays());
                v
            },
        };
        let ghost sv = strings_view(addrs@);
        let mut relays: Vec<ParsedUrl> = Vec::new();
        let mut i: usize = 0;
        proof {
            assert(sv.take(0) =~= Seq::<Seq<char>>::empty());
            assert(urls_view(relays@) =~= Seq::<UrlParts>::empty());
        }
        while i < addrs.len()
            invariant
                sv == strings_view(addrs@),
                sv == wanted,
                wanted == (match configured {
                    Some(v) => strings_view(v@),
                    None => default_relays(),
                }),
                i <= addrs@.len(),
                parsed_relays(sv.take(i as int)) == Ok::<Seq<UrlParts>, UrlParseError>(
                    urls_view(relays@),
                ),
            decreases addrs@.len() - i,
        {
            proof {
                let t = sv.take(i + 1);
                assert(t.drop_last() =~= sv.take(i as int));
                assert(t.last() == addrs@[i as int]@);
            }
            match url_parse(addrs[i].as_str()) {
                Ok(u) => {
                    let ghost old_v = urls_view(relays@);
                    relays.push(u);
                    proof {
                        assert(urls_view(relays@) =~= old_v.push(relays@[relays@.len() - 1].parts()));
                    }
                },
                Err(e) => {
                    proof {
                        let t = sv.take(i + 1);
                        assert(parsed_relays(t) == Err::<Seq<UrlParts>, UrlParseError>(e));
                        lemma_parse_error_stays(sv, i as int + 1);
                    }
                    return Err(RelayDirectoryError::InvalidUrl(e));
                },
            }
            i = i + 1;
        }
        proof {
            assert(sv.take(addrs@.len() as int) =~= sv);
        }
        Ok(RelayDirectory { relays })
    }

    /// The relays, in order.
    pub fn relays(&self) -> (r: &[ParsedUrl])
        ensures
            urls_view(r@) == self.view(),
    {
        self.relays.as_slice()
    }
}

proof fn lemma_parse_error_stays(s: Seq<Seq<char>>, i: int)
    requires
        0 <= i <= s.len(),
        parsed_relays(s.take(i)) is Err,
    ensures
        parsed_relays(s) == parsed_relays(s.take(i)),
    decreases s.len() - i,
{
    if i < s.len() {
        let t = s.take(i + 1);
        assert(t.drop_last() =~= s.take(i));
        lemma_parse_error_stays(s, i + 1);
    } else {
        assert(s.take(i) =~= s);
    }
}

} // verus!
