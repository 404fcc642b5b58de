//! A registry of fetched URLs: the network work happens outside; the
//! registry records each successfully fetched URL and can dump them all.

use vstd::prelude::*;

verus! {

/// The dump of a registry: every URL followed by a comma.
pub open spec fn dump_spec(urls: Seq<Seq<char>>) -> Seq<char>
    decreases urls.len(),
{
    if urls.len() == 0 {
        Seq::empty()
    } else {
        urls[0] + seq![','] + dump_spec(urls.skip(1))
    }
}

/// Keeps the URLs that were fetched successfully, in order.
pub struct URLFetcher {
    urls: Vec<String>,
}

impl URLFetcher {
    /// The recorded URLs, in order.
    pub closed spec fn spec_urls(&self) -> Seq<Seq<char>> {
        self.urls.deep_view()
    }

    /// An empty registry.
    pub fn new() -> (f: URLFetcher)
        ensures
            f.spec_urls() == Seq::<Seq<char>>::empty(),
    {
        let f = URLFetcher { urls: Vec::new() };
        proof {
            assert(f.spec_urls() =~= Seq::<Seq<char>>::empty());
        }
        f
    }

    /// Records one successfully fetched URL at the end.
    pub fn register_url(&mut self, url: String)
        ensures
            final(self).spec_urls() == old(self).spec_urls().push(url@),
    {
        self.urls.push(url);
        proof {
            assert(final(self).spec_urls() =~= old(self).spec_urls().push(url@));
        }
    }

    /// All recorded URLs in one string, each followed by a comma.
    pub fn dump_url_registry(&self) -> (r: String)
        ensures
            r@ == dump_spec(self.spec_urls()),
    {
        let ghost us = self.spec_urls();
        let n = self.urls.len();
        let mut dump = String::new();
        let mut i: usize = 0;
        proof {
            assert(us.skip(0) =~= us);
            assert(dump@ + dump_spec(us) =~= dump_spec(us));
        }
        while i < n
            invariant
                i <= n,
                n == us.len(),
                us == self.spec_urls(),
                dump_spec(us) == dump@ + dump_spec(us.skip(i as int)),
            decreases n - i,
        {
            let ghost d0 = dump@;
            proof {
                assert(us.skip(i as int)[0] == us[i as int]);
                assert(us[i as int] == self.urls@[i as int]@);
                assert(us.skip(i as int).skip(1) =~= us.skip(i as int + 1));
            }
            dump.append(self.urls[i].as_str());
            dump.push(',');
            proof {
                assert((d0 + us[i as int]).push(',') + dump_spec(us.skip(i as int + 1)) =~= d0 + (
                us[i as int] + seq![','] + dump_spec(us.skip(i as int + 1))));
            }
            i = i + 1;
        }
        proof {
            assert(us.skip(n as int) =~= Seq::<Seq<char>>::empty());
            assert(dump@ + Seq::<char>::empty() =~= dump@);
        }
        dump
    }
}

} // verus!
