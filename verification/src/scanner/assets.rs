//! Artwork: where it comes from and where it is kept.

use vstd::prelude::*;

use crate::components::slash;
use crate::text::{cat, chars_of, lower_hex, prefix_cut, string_of, strip_prefix, trimmed_start};

verus! {

/// An asset that is to be stored.
#[derive(Debug)]
pub struct NewAsset {
    pub remote_url: Option<String>,
    pub local_path: String,
    pub file_ext: String,
}

/// An asset that is stored.
#[derive(Debug)]
pub struct Asset {
    pub id: i64,
    pub remote_url: Option<String>,
    pub local_path: String,
}

/// What `url::Url::parse` makes of a text: the address in its normal form, or nothing where the text is
/// no absolute address.
pub uninterp spec fn url_text(s: Seq<char>) -> Option<Seq<char>>;

/// Calls `url::Url::parse` and gives the address in its normal form. The result is a function of the
/// text.
#[verifier::external_body]
fn parse_url(s: &str) -> (r: Option<String>)
    ensures
        match (r, url_text(s@)) {
            (Some(t), Some(u)) => t@ == u,
            (None, None) => true,
            _ => false,
        },
{
    url::Url::parse(s).ok().map(String::from)
}

/// The text of a random identifier of version 4: five groups of lower-case hexadecimal digits, with the
/// version and the variant in their places.
pub open spec fn is_uuid4(s: Seq<char>) -> bool {
    &&& s.len() == 36
    &&& forall|i: int|
        0 <= i < 36 ==> if i == 8 || i == 13 || i == 18 || i == 23 {
            #[trigger] s[i] == '-'
        } else {
            lower_hex(s[i])
        }
    &&& s[14] == '4'
    &&& s[19] == '8' || s[19] == '9' || s[19] == 'a' || s[19] == 'b'
}

/// Calls `uuid::Uuid::new_v4` and gives the identifier with hyphens, in lower case. Which one it is, is
/// left to chance.
#[verifier::external_body]
fn fresh_uuid() -> (r: String)
    ensures
        is_uuid4(r@),
{
    uuid::Uuid::new_v4().as_hyphenated().to_string()
}

/// The path under which an asset is stored.
pub open spec fn stored_path(name: Seq<char>) -> Seq<char> {
    "images/"@ + trimmed_start(name, slash())
}

/// Leaves out slashes at the start.
fn trim_slashes(s: &str) -> (r: String)
    ensures
        r@ == trimmed_start(s@, slash()),
{
    let v = chars_of(s);
    let mut i: usize = 0;
    assert(v@.skip(0) =~= v@);
    while i < v.len() && v[i] == '/'
        invariant
            0 <= i <= v@.len(),
            v@ == s@,
            trimmed_start(s@, slash()) == trimmed_start(v@.skip(i as int), slash()),
        decreases v@.len() - i,
    {
        proof {
            let rest = v@.skip(i as int);
            assert(rest[0] == v@[i as int]);
            assert(slash()(rest[0]));
            assert(rest.skip(1) =~= v@.skip(i + 1));
        }
        i = i + 1;
    }
    proof {
        let rest = v@.skip(i as int);
        if i < v@.len() {
            assert(rest[0] == v@[i as int]);
            assert(!slash()(rest[0]));
        }
        assert(trimmed_start(rest, slash()) == rest);
        assert(v@.subrange(i as int, v@.len() as int) =~= rest);
    }
    let len: usize = v.len();
    string_of(&v, i, len)
}

/// Formats the path where assets are stored; empty where there is none.
pub fn format_path(x: Option<String>) -> (r: String)
    ensures
        r@ == match x {
            Some(name) => stored_path(name@),
            None => Seq::empty(),
        },
{
    match x {
        Some(name) => {
            let rest = trim_slashes(name.as_str());
            cat("images/", rest.as_str())
        },
        None => {
            let r = String::new();
            assert(r@ =~= Seq::empty());
            r
        },
    }
}

/// `a` is the asset for an address: it keeps the address in its normal form, under a random name.
pub open spec fn is_asset_for(a: NewAsset, url: Seq<char>) -> bool {
    &&& a.remote_url is Some
    &&& url_text(url) == Some(a.remote_url->0@)
    &&& a.file_ext@ == "jpg"@
    &&& exists|name: Seq<char>|
        #[trigger] is_uuid4(name) && a.local_path@ == "images/"@ + (name + ".jpg"@)
}

/// Makes the asset for an address, if it is one.
pub fn asset_from_url(url: &str) -> (r: Option<NewAsset>)
    ensures
        r is Some <==> url_text(url@) is Some,
        r matches Some(a) ==> is_asset_for(a, url@),
{
    match parse_url(url) {
        None => None,
        Some(remote) => {
            let filename = fresh_uuid();
            let name = cat(filename.as_str(), ".jpg");
            let ghost n = name@;
            let local_path = format_path(Some(name));
            proof {
                assert(n[0] == filename@[0]);
                assert(!slash()(n[0]));
                assert(trimmed_start(n, slash()) == n);
                assert(is_uuid4(filename@));
            }
            Some(
                NewAsset {
                    remote_url: Some(remote),
                    local_path,
                    file_ext: "jpg".to_string(),
                },
            )
        },
    }
}

/// `r` are assets for those of the texts that are addresses, in their order.
pub open spec fn are_assets_for(r: Seq<NewAsset>, urls: Seq<String>) -> bool
    decreases urls.len(),
{
    if urls.len() == 0 {
        r.len() == 0
    } else if url_text(urls.last()@) is Some {
        r.len() > 0 && is_asset_for(r.last(), urls.last()@) && are_assets_for(
            r.drop_last(),
            urls.drop_last(),
        )
    } else {
        are_assets_for(r, urls.drop_last())
    }
}

/// Makes the assets for a list of addresses; what is no address is left out.
pub fn assets_from_urls(urls: &Vec<String>) -> (r: Vec<NewAsset>)
    ensures
        are_assets_for(r@, urls@),
{
    let mut r: Vec<NewAsset> = Vec::new();
    let mut i: usize = 0;
    while i < urls.len()
        invariant
            0 <= i <= urls@.len(),
            are_assets_for(r@, urls@.take(i as int)),
        decreases urls@.len() - i,
    {
        let ghost before = r@;
        proof {
            let next = urls@.take(i + 1);
            assert(next.drop_last() =~= urls@.take(i as int));
            assert(next.last() == urls@[i as int]);
        }
        if let Some(a) = asset_from_url(urls[i].as_str()) {
            r.push(a);
            assert(r@.drop_last() =~= before);
        }
        i = i + 1;
    }
    assert(urls@.take(i as int) =~= urls@);
    r
}

/// The name under which an asset is downloaded: its path, without the directory that the image route
/// adds.
pub open spec fn download_name(local_path: Seq<char>) -> Seq<char> {
    match prefix_cut(local_path, "images/"@) {
        Some(rest) => rest,
        None => local_path,
    }
}

/// Gives the address and the file name with which an asset is put into the download queue, if it has an
/// address.
pub fn enqueue_asset_download(asset: &Asset) -> (r: Option<(String, String)>)
    ensures
        r is Some <==> asset.remote_url is Some,
        r matches Some((url, outfile)) ==> url == asset.remote_url->0 && outfile@ == download_name(
            asset.local_path@,
        ),
{
    match &asset.remote_url {
        None => None,
        Some(url) => {
            let outfile = match strip_prefix(asset.local_path.as_str(), "images/") {
                Some(rest) => rest,
                None => asset.local_path.clone(),
            };
            Some((url.clone(), outfile))
        },
    }
}

/// What is stored by an address is downloaded under the name that it was given, without a directory.
pub proof fn law_downloads_are_where_assets_are_served(name: Seq<char>)
    requires
        name.len() > 0,
        name[0] != '/',
    ensures
        download_name(stored_path(name)) == name,
{
    assert(trimmed_start(name, slash()) == name) by {
        assert(!slash()(name[0]));
    }
    let p = stored_path(name);
    assert(p =~= "images/"@ + name);
    assert(p.skip("images/"@.len() as int) =~= name);
    assert(p.subrange(0, "images/"@.len() as int) =~= "images/"@);
    assert(p.take("images/"@.len() as int) =~= "images/"@);
    assert(p.subrange("images/"@.len() as int, p.len() as int) =~= name);
}

/// Every text that is an address becomes an asset, which keeps the address, and nothing else does.
pub proof fn law_addresses_become_assets(r: Seq<NewAsset>, urls: Seq<String>, i: int)
    requires
        are_assets_for(r, urls),
        0 <= i < urls.len(),
    ensures
        r.len() <= urls.len(),
        url_text(urls[i]@) matches Some(text) ==> exists|k: int|
            0 <= k < r.len() && ((#[trigger] r[k]).remote_url matches Some(u) && u@ == text) && r[k].file_ext@
                == "jpg"@ && "images/"@.is_prefix_of(r[k].local_path@),
    decreases urls.len(),
{
    lemma_no_more_assets(r, urls);
    let fewer = urls.drop_last();
    let here = url_text(urls.last()@) is Some;
    let rest = if here {
        r.drop_last()
    } else {
        r
    };
    if i < urls.len() - 1 {
        law_addresses_become_assets(rest, fewer, i);
        assert(fewer[i] == urls[i]);
        if let Some(text) = url_text(urls[i]@) {
            let k = choose|k: int|
                0 <= k < rest.len() && ((#[trigger] rest[k]).remote_url matches Some(u) && u@ == text)
                    && rest[k].file_ext@ == "jpg"@ && "images/"@.is_prefix_of(rest[k].local_path@);
            assert(r[k] == rest[k]);
        }
    } else if here {
        let a = r[r.len() - 1];
        let name = choose|name: Seq<char>|
            #[trigger] is_uuid4(name) && a.local_path@ == "images/"@ + (name + ".jpg"@);
        assert(a.local_path@.subrange(0, "images/"@.len() as int) =~= "images/"@);
    }
}

/// There are at most as many assets as texts.
proof fn lemma_no_more_assets(r: Seq<NewAsset>, urls: Seq<String>)
    requires
        are_assets_for(r, urls),
    ensures
        r.len() <= urls.len(),
    decreases urls.len(),
{
    if urls.len() > 0 {
        if url_text(urls.last()@) is Some {
            lemma_no_more_assets(r.drop_last(), urls.drop_last());
        } else {
            lemma_no_more_assets(r, urls.drop_last());
        }
    }
}

}
