//! The registry driver interface: search results and HTTPS query
//! formulation over URL-encoded parameters.

use vstd::prelude::*;
use crate::text::str_eq;

verus! {

/// One hit of a registry search.
#[derive(Debug)]
pub struct ModResult {
    pub id: String,
    pub slug: String,
    pub description: String,
    pub author: String,
    pub downloads: usize,
    pub tags: Vec<String>,
}

/// The mathematical content of a search hit.
#[verifier::ext_equal]
pub ghost struct ModResultModel {
    pub id: Seq<char>,
    pub slug: Seq<char>,
    pub description: Seq<char>,
    pub author: Seq<char>,
    pub downloads: usize,
    pub tags: Seq<Seq<char>>,
}

impl View for ModResult {
    type V = ModResultModel;

    open spec fn view(&self) -> ModResultModel {
        ModResultModel {
            id: self.id@,
            slug: self.slug@,
            description: self.description@,
            author: self.author@,
            downloads: self.downloads,
            tags: self.tags.deep_view(),
        }
    }
}

impl DeepView for ModResult {
    type V = ModResultModel;

    open spec fn deep_view(&self) -> ModResultModel {
        self.view()
    }
}

/// What a driver knows about one downloadable file.
#[derive(Debug)]
pub struct DownloadOptions {
    pub sha512: Option<String>,
    pub file_name: String,
    pub url: String,
    pub dependencies: Vec<String>,
}

/// The URL-encoding of a string: alphanumerics and `-`, `_`, `.`, `~`
/// unchanged, every other byte percent-escaped.
pub uninterp spec fn url_encoded_of(s: Seq<char>) -> Seq<char>;

/// Relies on urlencoding's `encode`: the result depends on the input
/// characters alone.
#[verifier::external_body]
fn url_encode(s: &str) -> (r: String)
    ensures
        r@ == url_encoded_of(s@),
{
    urlencoding::encode(s).into_owned()
}

/// The `key=value` encoding of one parameter pair.
pub open spec fn param_encoded(p: (Seq<char>, Seq<char>)) -> Seq<char> {
    url_encoded_of(p.0) + "="@ + url_encoded_of(p.1)
}

/// The `&`-joined encoding of a parameter list, in order.
pub open spec fn params_encoded(ps: Seq<(Seq<char>, Seq<char>)>) -> Seq<char>
    decreases ps.len(),
{
    if ps.len() == 0 {
        Seq::empty()
    } else if ps.len() == 1 {
        param_encoded(ps.last())
    } else {
        params_encoded(ps.drop_last()) + "&"@ + param_encoded(ps.last())
    }
}

/// Setting a parameter: the first pair with the same key is replaced in
/// place, a fresh key lands at the end.
pub open spec fn spec_set_param(
    ps: Seq<(Seq<char>, Seq<char>)>,
    k: Seq<char>,
    v: Seq<char>,
) -> Seq<(Seq<char>, Seq<char>)>
    decreases ps.len(),
{
    if ps.len() == 0 {
        seq![(k, v)]
    } else if ps.first().0 == k {
        seq![(k, v)] + ps.drop_first()
    } else {
        seq![ps.first()] + spec_set_param(ps.drop_first(), k, v)
    }
}

/// Some pair carries this key.
pub open spec fn has_param(ps: Seq<(Seq<char>, Seq<char>)>, k: Seq<char>) -> bool {
    exists|i: int| 0 <= i < ps.len() && (#[trigger] ps[i]).0 == k
}

proof fn lemma_set_param_push_found(
    ps: Seq<(Seq<char>, Seq<char>)>,
    x: (Seq<char>, Seq<char>),
    k: Seq<char>,
    v: Seq<char>,
)
    requires
        has_param(ps, k),
    ensures
        spec_set_param(ps.push(x), k, v) =~= spec_set_param(ps, k, v).push(x),
    decreases ps.len(),
{
    let i = choose|i: int| 0 <= i < ps.len() && (#[trigger] ps[i]).0 == k;
    assert(ps.len() > 0);
    assert(ps.push(x).first() == ps.first());
    assert(ps.push(x).drop_first() =~= ps.drop_first().push(x));
    if ps.first().0 == k {
        assert(spec_set_param(ps.push(x), k, v) =~= seq![(k, v)] + ps.drop_first().push(x));
        assert(seq![(k, v)] + ps.drop_first().push(x) =~= (seq![(k, v)] + ps.drop_first()).push(x));
    } else {
        assert(i > 0);
        assert(ps.drop_first()[i - 1].0 == k);
        lemma_set_param_push_found(ps.drop_first(), x, k, v);
        assert(seq![ps.first()] + spec_set_param(ps.drop_first(), k, v).push(x) =~= (seq![
            ps.first(),
        ] + spec_set_param(ps.drop_first(), k, v)).push(x));
    }
}

proof fn lemma_set_param_absent(ps: Seq<(Seq<char>, Seq<char>)>, k: Seq<char>, v: Seq<char>)
    requires
        !has_param(ps, k),
    ensures
        spec_set_param(ps, k, v) =~= ps.push((k, v)),
    decreases ps.len(),
{
    if ps.len() == 0 {
    } else {
        assert(ps.first().0 != k) by {
            assert(ps[0] == ps.first());
        }
        assert(!has_param(ps.drop_first(), k)) by {
            if has_param(ps.drop_first(), k) {
                let i = choose|i: int|
                    0 <= i < ps.drop_first().len() && (#[trigger] ps.drop_first()[i]).0 == k;
                assert(ps[i + 1].0 == k);
            }
        }
        lemma_set_param_absent(ps.drop_first(), k, v);
        assert(seq![ps.first()] + ps.drop_first().push((k, v)) =~= ps.push((k, v)));
    }
}

/// A query to one HTTPS endpoint, with its parameters in the order they
/// were set.
#[derive(Debug)]
pub struct HTTPSQuery {
    pub hostname: String,
    pub endpoint: String,
    pub parameters: Vec<(String, String)>,
}

/// The mathematical content of a query.
#[verifier::ext_equal]
pub ghost struct HTTPSQueryModel {
    pub hostname: Seq<char>,
    pub endpoint: Seq<char>,
    pub parameters: Seq<(Seq<char>, Seq<char>)>,
}

impl View for HTTPSQuery {
    type V = HTTPSQueryModel;

    open spec fn view(&self) -> HTTPSQueryModel {
        HTTPSQueryModel {
            hostname: self.hostname@,
            endpoint: self.endpoint@,
            parameters: self.parameters.deep_view(),
        }
    }
}

/// The full URL a query formulates to.
pub open spec fn formulated_of(q: HTTPSQueryModel) -> Seq<char> {
    "https://"@ + q.hostname + "/"@ + q.endpoint + "?"@ + params_encoded(q.parameters)
}

impl HTTPSQuery {
    /// Render a list of display items as a bracketed, comma-separated
    /// array literal.
    pub fn serialize_array(array: &[String]) -> (r: String)
        ensures
            r@ == "["@ + comma_joined(array.deep_view()) + "]"@,
    {
        let mut s = String::new();
        s.append("[");
        let len = array.len();
        let mut i: usize = 0;
        while i < len
            invariant
                len == array@.len(),
                i <= len,
                i == 0 ==> s@ == "["@,
                i > 0 ==> s@ == "["@ + comma_joined(array.deep_view().take(i as int)),
            decreases len - i,
        {
            let ghost pre = array.deep_view().take(i as int);
            let ghost post = array.deep_view().take(i + 1);
            proof {
                assert(post.drop_last() =~= pre);
                assert(post.last() == array@[i as int]@);
            }
            if i > 0 {
                s.append(",");
            }
            let item = &array[i];
            s.append(item.as_str());
            i = i + 1;
        }
        s.append("]");
        proof {
            assert(array.deep_view().take(len as int) =~= array.deep_view());
        }
        s
    }

    /// Plain constructor: no parameters yet.
    pub fn new(hostname: &str, endpoint: &str) -> (r: Self)
        ensures
            r@ == (HTTPSQueryModel {
                hostname: hostname@,
                endpoint: endpoint@,
                parameters: Seq::empty(),
            }),
    {
        let r = Self {
            hostname: hostname.to_owned(),
            endpoint: endpoint.to_owned(),
            parameters: Vec::new(),
        };
        proof {
            assert(r@ =~~= (HTTPSQueryModel {
                hostname: hostname@,
                endpoint: endpoint@,
                parameters: Seq::empty(),
            }));
        }
        r
    }

    /// Set one parameter: an existing key keeps its position with the new
    /// value, a fresh one is appended.
    pub fn add_parameter(self, parameter: &str, value: &str) -> (r: Result<Self, String>)
        ensures
            r matches Ok(q) && q@.hostname == self@.hostname && q@.endpoint == self@.endpoint
                && q@.parameters == spec_set_param(self@.parameters, parameter@, value@),
    {
        let mut out: Vec<(String, String)> = Vec::new();
        let len = self.parameters.len();
        let mut i: usize = 0;
        let mut found = false;
        while i < len
            invariant
                len == self.parameters@.len(),
                i <= len,
                found ==> has_param(self.parameters.deep_view().take(i as int), parameter@)
                    && out.deep_view() =~= spec_set_param(
                    self.parameters.deep_view().take(i as int),
                    parameter@,
                    value@,
                ),
                !found ==> !has_param(self.parameters.deep_view().take(i as int), parameter@)
                    && out.deep_view() =~= self.parameters.deep_view().take(i as int),
            decreases len - i,
        {
            let ghost pre = self.parameters.deep_view().take(i as int);
            let ghost post = self.parameters.deep_view().take(i + 1);
            proof {
                assert(post.drop_last() =~= pre);
                assert(post.last() == self.parameters@[i as int].deep_view());
                assert(post =~= pre.push(post.last()));
            }
            let pair = &self.parameters[i];
            if !found && str_eq(pair.0.as_str(), parameter) {
                out.push((parameter.to_owned(), value.to_owned()));
                found = true;
                proof {
                    lemma_set_param_on_first_match(pre, post.last(), parameter@, value@);
                    assert(pre.push(post.last()) =~= post);
                    assert(spec_set_param(post, parameter@, value@) =~= pre.push(
                        (parameter@, value@),
                    ));
                    assert(post[i as int].0 == parameter@);
                    assert(has_param(post, parameter@));
                }
            } else {
                out.push((pair.0.clone(), pair.1.clone()));
                proof {
                    if found {
                        lemma_set_param_push_found(pre, post.last(), parameter@, value@);
                    } else {
                        assert(post.last().0 != parameter@);
                        assert(!has_param(post, parameter@)) by {
                            if has_param(post, parameter@) {
                                let j = choose|j: int|
                                    0 <= j < post.len() && (#[trigger] post[j]).0 == parameter@;
                                if j < i {
                                    assert(pre[j].0 == parameter@);
                                }
                            }
                        }
                    }
                }
            }
            i = i + 1;
        }
        let mut out = out;
        if !found {
            out.push((parameter.to_owned(), value.to_owned()));
            proof {
                lemma_set_param_absent(
                    self.parameters.deep_view().take(len as int),
                    parameter@,
                    value@,
                );
            }
        }
        proof {
            assert(self.parameters.deep_view().take(len as int) =~= self.parameters.deep_view());
        }
        let r = Self { hostname: self.hostname, endpoint: self.endpoint, parameters: out };
        Ok(r)
    }

    /// The full URL of this query: scheme, host, endpoint, and the
    /// URL-encoded parameters joined with `&`, in order.
    pub fn formulate(&self) -> (r: String)
        ensures
            r@ == formulated_of(self@),
    {
        let mut base = String::new();
        base.append("https://");
        base.append(self.hostname.as_str());
        base.append("/");
        base.append(self.endpoint.as_str());
        base.append("?");
        let mut parameter_str = String::new();
        let len = self.parameters.len();
        let mut i: usize = 0;
        while i < len
            invariant
                len == self.parameters@.len(),
                i <= len,
                parameter_str@ =~= params_encoded(self.parameters.deep_view().take(i as int)),
            decreases len - i,
        {
            let ghost pre = self.parameters.deep_view().take(i as int);
            let ghost post = self.parameters.deep_view().take(i + 1);
            proof {
                assert(post.drop_last() =~= pre);
                assert(post.last() == self.parameters@[i as int].deep_view());
            }
            if i > 0 {
                parameter_str.append("&");
            }
            let pair = &self.parameters[i];
            let ek = url_encode(pair.0.as_str());
            parameter_str.append(ek.as_str());
            parameter_str.append("=");
            let ev = url_encode(pair.1.as_str());
            parameter_str.append(ev.as_str());
            i = i + 1;
        }
        proof {
            assert(self.parameters.deep_view().take(len as int) =~= self.parameters.deep_view());
        }
        base.append(parameter_str.as_str());
        base
    }
}

proof fn lemma_set_param_on_first_match(
    pre: Seq<(Seq<char>, Seq<char>)>,
    x: (Seq<char>, Seq<char>),
    k: Seq<char>,
    v: Seq<char>,
)
    requires
        !has_param(pre, k),
        x.0 == k,
    ensures
        spec_set_param(pre.push(x), k, v) =~= pre.push((k, v)),
    decreases pre.len(),
{
    if pre.len() == 0 {
        assert(pre.push(x).first().0 == k);
        assert(pre.push(x).drop_first() =~= Seq::<(Seq<char>, Seq<char>)>::empty());
    } else {
        assert(pre.first().0 != k) by {
            assert(pre[0] == pre.first());
        }
        assert(pre.push(x).first() == pre.first());
        assert(pre.push(x).drop_first() =~= pre.drop_first().push(x));
        assert(!has_param(pre.drop_first(), k)) by {
            if has_param(pre.drop_first(), k) {
                let i = choose|i: int|
                    0 <= i < pre.drop_first().len() && (#[trigger] pre.drop_first()[i]).0 == k;
                assert(pre[i + 1].0 == k);
            }
        }
        lemma_set_param_on_first_match(pre.drop_first(), x, k, v);
        assert(seq![pre.first()] + pre.drop_first().push((k, v)) =~= pre.push((k, v)));
    }
}

/// The comma-separated join of a list of strings.
pub open spec fn comma_joined(items: Seq<Seq<char>>) -> Seq<char>
    decreases items.len(),
{
    if items.len() == 0 {
        Seq::empty()
    } else if items.len() == 1 {
        items.last()
    } else {
        comma_joined(items.drop_last()) + ","@ + items.last()
    }
}

} // verus!
