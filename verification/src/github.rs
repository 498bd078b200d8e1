//! The GitHub port's in-memory double: release assets and downloadable
//! contents seeded by tests, served without a network.

use vstd::prelude::*;
use vstd::string::*;
use crate::errors::GithubError;
use crate::keyed::{first_match, keys_of, find_key, lemma_first_match_from, lemma_first_match_push, lemma_keys_of_update, lemma_keys_of_push};
use crate::models::{Asset, AssetView, assets_view, copy_assets, copy_bytes};

verus! {

/// The key under which the assets of release `tag` of `repo` are seeded.
pub open spec fn release_key(repo: Seq<char>, tag: Seq<char>) -> Seq<char> {
    repo + seq!['@'] + tag
}

/// Returns pre-seeded assets and file contents. No network.
pub struct FakeGithub {
    assets: Vec<(String, Vec<Asset>)>,
    downloads: Vec<(String, Vec<u8>)>,
}

impl FakeGithub {
    /// The assets seeded for release `tag` of `repo`, if any were.
    pub closed spec fn seeded_assets(&self, repo: Seq<char>, tag: Seq<char>) -> Option<Seq<AssetView>> {
        match first_match(keys_of(self.assets@), release_key(repo, tag), false) {
            Some(i) => Some(assets_view(self.assets@[i].1@)),
            None => None,
        }
    }

    /// The content seeded for download from `url`, if any was.
    pub closed spec fn seeded_download(&self, url: Seq<char>) -> Option<Seq<u8>> {
        match first_match(keys_of(self.downloads@), url, false) {
            Some(i) => Some(self.downloads@[i].1@),
            None => None,
        }
    }

    /// Nothing seeded.
    pub fn new() -> (g: Self)
        ensures
            forall|repo: Seq<char>, tag: Seq<char>| g.seeded_assets(repo, tag) is None,
            forall|url: Seq<char>| g.seeded_download(url) is None,
    {
        FakeGithub { assets: Vec::new(), downloads: Vec::new() }
    }

    /// Seeds `assets` as the assets of release `tag` of `repo`, replacing
    /// what was seeded for that release before.
    pub fn seed_assets(&mut self, repo: &str, tag: &str, assets: Vec<Asset>)
        ensures
            forall|r: Seq<char>, t: Seq<char>|
                #[trigger] final(self).seeded_assets(r, t) == if release_key(r, t) == release_key(
                    repo@,
                    tag@,
                ) {
                    Some(assets_view(assets@))
                } else {
                    old(self).seeded_assets(r, t)
                },
            forall|url: Seq<char>| #[trigger]
                final(self).seeded_download(url) == old(self).seeded_download(url),
    {
        let key = release_key_string(repo, tag);
        let ghost old_entries = self.assets@;
        match find_key(&self.assets, key.as_str(), false) {
            Some(i) => {
                let k = self.assets[i].0.clone();
                self.assets.set(i, (k, assets));
                proof {
                    lemma_keys_of_update(old_entries, i as int, assets);
                    assert forall|r: Seq<char>, t: Seq<char>|
                        #[trigger] self.seeded_assets(r, t) == if release_key(r, t) == release_key(
                            repo@,
                            tag@,
                        ) {
                            Some(assets_view(assets@))
                        } else {
                            old(self).seeded_assets(r, t)
                        } by {
                        lemma_first_match_from(keys_of(old_entries), release_key(r, t), false, 0);
                        lemma_first_match_from(keys_of(old_entries), key@, false, 0);
                    }
                }
            },
            None => {
                self.assets.push((key, assets));
                proof {
                    lemma_keys_of_push(old_entries, (key, assets));
                    assert forall|r: Seq<char>, t: Seq<char>|
                        #[trigger] self.seeded_assets(r, t) == if release_key(r, t) == release_key(
                            repo@,
                            tag@,
                        ) {
                            Some(assets_view(assets@))
                        } else {
                            old(self).seeded_assets(r, t)
                        } by {
                        lemma_first_match_push(keys_of(old_entries), key@, release_key(r, t), false);
                        lemma_first_match_from(keys_of(old_entries), release_key(r, t), false, 0);
                    }
                }
            },
        }
    }

    /// Seeds `content` as what downloading `url` gives, replacing what was
    /// seeded for that address before.
    pub fn seed_download(&mut self, url: &str, content: &[u8])
        ensures
            forall|u: Seq<char>|
                #[trigger] final(self).seeded_download(u) == if u == url@ {
                    Some(content@)
                } else {
                    old(self).seeded_download(u)
                },
            forall|r: Seq<char>, t: Seq<char>| #[trigger]
                final(self).seeded_assets(r, t) == old(self).seeded_assets(r, t),
    {
        let bytes = bytes_of(content);
        let ghost old_entries = self.downloads@;
        match find_key(&self.downloads, url, false) {
            Some(i) => {
                let k = self.downloads[i].0.clone();
                self.downloads.set(i, (k, bytes));
                proof {
                    lemma_keys_of_update(old_entries, i as int, bytes);
                    assert forall|u: Seq<char>|
                        #[trigger] self.seeded_download(u) == if u == url@ {
                            Some(content@)
                        } else {
                            old(self).seeded_download(u)
                        } by {
                        lemma_first_match_from(keys_of(old_entries), u, false, 0);
                        lemma_first_match_from(keys_of(old_entries), url@, false, 0);
                    }
                }
            },
            None => {
                let key = String::from_str(url);
                self.downloads.push((key, bytes));
                proof {
                    lemma_keys_of_push(old_entries, (key, bytes));
                    assert forall|u: Seq<char>|
                        #[trigger] self.seeded_download(u) == if u == url@ {
                            Some(content@)
                        } else {
                            old(self).seeded_download(u)
                        } by {
                        lemma_first_match_push(keys_of(old_entries), url@, u, false);
                        lemma_first_match_from(keys_of(old_entries), u, false, 0);
                    }
                }
            },
        }
    }

    /// The assets of release `tag` of `repo`: those seeded, or none.
    pub fn fetch_release_assets(&self, repo: &str, tag: &str) -> (r: Result<Vec<Asset>, GithubError>)
        ensures
            match r {
                Ok(a) => assets_view(a@) == match self.seeded_assets(repo@, tag@) {
                    Some(s) => s,
                    None => Seq::empty(),
                },
                Err(_) => false,
            },
    {
        let key = release_key_string(repo, tag);
        match find_key(&self.assets, key.as_str(), false) {
            Some(i) => Ok(copy_assets(&self.assets[i].1)),
            None => {
                let empty: Vec<Asset> = Vec::new();
                assert(assets_view(empty@) =~= Seq::<AssetView>::empty());
                Ok(empty)
            },
        }
    }

    /// The content seeded for `url`; an error naming `url` when none was.
    pub fn download_asset(&self, url: &str) -> (r: Result<Vec<u8>, GithubError>)
        ensures
            match r {
                Ok(c) => self.seeded_download(url@) == Some(c@),
                Err(e) => self.seeded_download(url@) is None && e.0@ == no_download_message(url@),
            },
    {
        match find_key(&self.downloads, url, false) {
            Some(i) => Ok(copy_bytes(&self.downloads[i].1)),
            None => {
                proof { reveal_strlit("no seeded download for "); }
                let msg = String::from_str("no seeded download for ");
                Err(GithubError(msg.concat(url)))
            },
        }
    }
}

/// The error message for a download that was not seeded.
pub open spec fn no_download_message(url: Seq<char>) -> Seq<char> {
    "no seeded download for "@ + url
}

/// The seeding key of release `tag` of `repo` (`format!("{repo}@{tag}")`).
fn release_key_string(repo: &str, tag: &str) -> (key: String)
    ensures
        key@ == release_key(repo@, tag@),
{
    proof { reveal_strlit("@"); }
    let k = String::from_str(repo);
    let k = k.concat("@");
    k.concat(tag)
}

/// The bytes of `content` in a vector of their own.
pub fn bytes_of(content: &[u8]) -> (v: Vec<u8>)
    ensures
        v@ == content@,
{
    let mut v: Vec<u8> = Vec::new();
    let n = content.len();
    let mut i: usize = 0;
    while i < n
        invariant
            n == content@.len(),
            i <= n,
            v@ == content@.subrange(0, i as int),
        decreases n - i,
    {
        v.push(content[i]);
        i = i + 1;
        assert(v@ =~= content@.subrange(0, i as int));
    }
    assert(content@.subrange(0, n as int) =~= content@);
    v
}

} // verus!
