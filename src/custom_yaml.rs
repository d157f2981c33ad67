use vstd::prelude::*;
use crate::dezoomer::{DezoomerError, DezoomerInput, TileFetchResult, TileReference};
use crate::text::{ends_with_str, is_suffix};

verus! {

/// An HTTP header: name and value.
pub type Header = (String, String);

/// `a` and `b` hold the same tiles in the same order.
pub open spec fn same_tiles(a: Seq<TileReference>, b: Seq<TileReference>) -> bool {
    &&& a.len() == b.len()
    &&& forall|i: int|
        0 <= i < a.len() ==> #[trigger] a[i].url@ == b[i].url@ && a[i].position == b[i].position
}

/// `a` and `b` hold the same headers in the same order.
pub open spec fn same_headers(a: Seq<Header>, b: Seq<Header>) -> bool {
    &&& a.len() == b.len()
    &&& forall|i: int| 0 <= i < a.len() ==> #[trigger] a[i].0@ == b[i].0@ && a[i].1@ == b[i].1@
}

/// `headers` has a header named `name`.
pub open spec fn has_header(headers: Seq<Header>, name: Seq<char>) -> bool {
    exists|i: int| 0 <= i < headers.len() && #[trigger] headers[i].0@ == name
}

pub open spec fn user_agent_name() -> Seq<char> {
    seq!['U', 's', 'e', 'r', '-', 'A', 'g', 'e', 'n', 't']
}

pub open spec fn accept_name() -> Seq<char> {
    seq!['A', 'c', 'c', 'e', 'p', 't']
}

/// The file name that a configuration address ends with.
pub open spec fn config_file_name() -> Seq<char> {
    seq!['t', 'i', 'l', 'e', 's', '.', 'y', 'a', 'm', 'l']
}

/// The headers sent when a configuration names none.
pub fn default_headers() -> (r: Vec<Header>)
    ensures
        has_header(r@, user_agent_name()),
        has_header(r@, accept_name()),
{
    proof {
        reveal_strlit("User-Agent");
        reveal_strlit("Accept");
        assert("User-Agent"@ =~= user_agent_name());
        assert("Accept"@ =~= accept_name());
    }
    let mut r: Vec<Header> = Vec::new();
    r.push((
        String::from_str("User-Agent"),
        String::from_str("Mozilla/5.0 (X11; Linux x86_64; rv:109.0) Gecko/20100101 Firefox/115.0"),
    ));
    r.push((String::from_str("Accept"), String::from_str("image/webp,image/*,*/*;q=0.8")));
    assert(r@[0].0@ == user_agent_name());
    assert(r@[1].0@ == accept_name());
    r
}

fn copy_tiles(tiles: &Vec<TileReference>) -> (r: Vec<TileReference>)
    ensures
        same_tiles(r@, tiles@),
{
    let mut r: Vec<TileReference> = Vec::new();
    let mut i: usize = 0;
    while i < tiles.len()
        invariant
            i <= tiles@.len(),
            r@.len() == i,
            forall|j: int|
                0 <= j < i ==> #[trigger] r@[j].url@ == tiles@[j].url@ && r@[j].position
                    == tiles@[j].position,
        decreases tiles@.len() - i,
    {
        let t = TileReference { url: tiles[i].url.clone(), position: tiles[i].position };
        r.push(t);
        i = i + 1;
    }
    r
}

fn copy_headers(headers: &Vec<Header>) -> (r: Vec<Header>)
    ensures
        same_headers(r@, headers@),
{
    let mut r: Vec<Header> = Vec::new();
    let mut i: usize = 0;
    while i < headers.len()
        invariant
            i <= headers@.len(),
            r@.len() == i,
            forall|j: int|
                0 <= j < i ==> #[trigger] r@[j].0@ == headers@[j].0@ && r@[j].1@ == headers@[j].1@,
        decreases headers@.len() - i,
    {
        let h = (headers[i].0.clone(), headers[i].1.clone());
        r.push(h);
        i = i + 1;
    }
    r
}

/// A tile set fixed in advance by a configuration document.
pub struct CustomYamlTiles {
    pub tiles: Vec<TileReference>,
    pub headers: Vec<Header>,
}

impl CustomYamlTiles {
    /// The provider for an expanded tile set; without headers of its own it
    /// sends the default ones.
    pub fn new(tiles: Vec<TileReference>, headers: Option<Vec<Header>>) -> (r: CustomYamlTiles)
        ensures
            r.tiles == tiles,
            match headers {
                Some(h) => r.headers == h,
                None => has_header(r.headers@, user_agent_name()) && has_header(
                    r.headers@,
                    accept_name(),
                ),
            },
    {
        let headers = match headers {
            Some(h) => h,
            None => default_headers(),
        };
        CustomYamlTiles { tiles, headers }
    }

    /// Every tile of the set, in order, on the first call (`None`); nothing
    /// once an outcome is reported.
    pub fn next_tiles(&mut self, previous: Option<TileFetchResult>) -> (r: Vec<TileReference>)
        ensures
            final(self).tiles == old(self).tiles,
            final(self).headers == old(self).headers,
            previous is None ==> same_tiles(r@, old(self).tiles@),
            previous is Some ==> r@.len() == 0,
    {
        if previous.is_some() {
            return Vec::new();
        }
        copy_tiles(&self.tiles)
    }

    /// The headers to send with every tile request.
    pub fn http_headers(&self) -> (r: Vec<Header>)
        ensures
            same_headers(r@, self.headers@),
    {
        copy_headers(&self.headers)
    }
}

/// The strategy that reads a tile set from a configuration document.
#[derive(Clone, Copy, Debug, Default)]
pub struct CustomDezoomer;

impl CustomDezoomer {
    pub fn name(&self) -> (r: String)
        ensures
            r@ == seq!['c', 'u', 's', 't', 'o', 'm'],
    {
        proof {
            reveal_strlit("custom");
        }
        String::from_str("custom")
    }

    /// Whether this strategy applies, and if so the configuration document's bytes, when
    /// the address names a configuration file and its contents were fetched.
    pub fn document_bytes(&mut self, data: &DezoomerInput) -> (r: Result<Vec<u8>, DezoomerError>)
        ensures
            !is_suffix(data.uri@, config_file_name()) ==> (r matches Err(
                DezoomerError::WrongDezoomer { name },
            ) && name@ == seq!['c', 'u', 's', 't', 'o', 'm']),
            is_suffix(data.uri@, config_file_name()) && data.contents is None ==> (r matches Err(
                DezoomerError::NeedsData { uri },
            ) && uri@ == data.uri@),
            is_suffix(data.uri@, config_file_name()) && data.contents is Some ==> (r matches Ok(b)
                && b@ == data.contents->Some_0@),
    {
        proof {
            reveal_strlit("tiles.yaml");
            assert("tiles.yaml"@ =~= config_file_name());
        }
        if !ends_with_str(data.uri.as_str(), "tiles.yaml") {
            return Err(DezoomerError::WrongDezoomer { name: self.name() });
        }
        match &data.contents {
            Some(c) => Ok(c.clone()),
            None => Err(DezoomerError::NeedsData { uri: data.uri.clone() }),
        }
    }
}

} // verus!
