//! Gateway API filters as instances of the HTTP service.
use vstd::prelude::*;
use crate::text::{concat3, concat4, concat5, i64_text, int_text, owned, texts, decimal, u64_text};
use crate::controller::resolve::k8s::service_config::{target_name, target_name_text};
use crate::controller::resolve::k8s::service_config::http::{
    HTTPHeader, HTTPHeaderModifier, HTTPPathModifier, HTTPPathModifierType, HTTPRedirectScheme,
    HTTPRequestMirror, HTTPRequestRedirect, HTTPRouteFilter, HTTPRouteFilterType, HTTPURLRewrite, HeaderPair,
    InstanceClass, InstanceConfig, InstanceConfigView, InstanceData, InstanceType, InstanceView, MirrorBackendRef,
    instance_view, pairs_view,
};

verus! {

/// `"filter-<target>-<index>"`: the id of a rule's filter.
pub open spec fn filter_id_text(target: Seq<char>, index: nat) -> Seq<char> {
    "filter-"@ + target + "-"@ + decimal(index)
}

/// The id of the `index`-th filter of the rule whose output is `target`.
pub fn filter_id(target: &str, index: usize) -> (r: String)
    ensures
        r@ == filter_id_text(target@, index as nat),
{
    let digits = u64_text(index as u64);
    concat4("filter-", target, "-", digits.as_str())
}

/// Header pairs of an optional list.
pub open spec fn header_pairs(o: Option<Vec<HTTPHeader>>) -> Seq<(Seq<char>, Seq<char>)> {
    match o {
        Some(v) => v@.map_values(|h: HTTPHeader| (h.name@, h.value@)),
        None => Seq::empty(),
    }
}

/// Header names of an optional list.
pub open spec fn header_names(o: Option<Vec<String>>) -> Seq<Seq<char>> {
    match o {
        Some(v) => texts(v@),
        None => Seq::empty(),
    }
}

/// A header modifier: headers set, added (`extend`) and removed, each in order.
pub open spec fn header_modify_view(f: HTTPHeaderModifier) -> InstanceConfigView {
    InstanceConfigView::HeaderModify { set: header_pairs(f.set), extend: header_pairs(f.add), remove: header_names(f.remove) }
}

fn pairs_of(o: &Option<Vec<HTTPHeader>>) -> (r: Vec<HeaderPair>)
    ensures
        pairs_view(r@) == header_pairs(*o),
{
    let mut r: Vec<HeaderPair> = Vec::new();
    match o {
        None => {
            assert(pairs_view(r@) =~= header_pairs(*o));
        },
        Some(v) => {
            let mut i: usize = 0;
            while i < v.len()
                invariant
                    i <= v@.len(),
                    *o == Some(*v),
                    r@.len() == i,
                    forall|k: int| 0 <= k < i ==> #[trigger] r@[k].0@ == v@[k].name@ && r@[k].1@ == v@[k].value@,
                decreases v@.len() - i,
            {
                r.push((v[i].name.clone(), v[i].value.clone()));
                i = i + 1;
            }
            assert(pairs_view(r@) =~= header_pairs(*o));
        },
    }
    r
}

fn names_of(o: &Option<Vec<String>>) -> (r: Vec<String>)
    ensures
        texts(r@) == header_names(*o),
{
    let mut r: Vec<String> = Vec::new();
    match o {
        None => {
            assert(texts(r@) =~= header_names(*o));
        },
        Some(v) => {
            let mut i: usize = 0;
            while i < v.len()
                invariant
                    i <= v@.len(),
                    *o == Some(*v),
                    r@.len() == i,
                    forall|k: int| 0 <= k < i ==> #[trigger] r@[k]@ == v@[k]@,
                decreases v@.len() - i,
            {
                r.push(v[i].clone());
                i = i + 1;
            }
            assert(texts(r@) =~= header_names(*o));
        },
    }
    r
}

/// A filter instance with no name.
pub open spec fn filter_instance(class: InstanceClass, config: InstanceConfigView) -> InstanceView {
    InstanceView { named: false, class, kind: InstanceType::Filter, config }
}

/// The request header modifier filter.
pub fn build_request_header_modify(filter: &HTTPHeaderModifier) -> (r: InstanceData)
    ensures
        instance_view(r) == filter_instance(InstanceClass::RequestHeaderModify, header_modify_view(*filter)),
{
    InstanceData {
        name: None,
        class: InstanceClass::RequestHeaderModify,
        kind: InstanceType::Filter,
        config: InstanceConfig::HeaderModify { set: pairs_of(&filter.set), extend: pairs_of(&filter.add), remove: names_of(&filter.remove) },
    }
}

/// The response header modifier filter.
pub fn build_response_header_modify(filter: &HTTPHeaderModifier) -> (r: InstanceData)
    ensures
        instance_view(r) == filter_instance(InstanceClass::ResponseHeaderModify, header_modify_view(*filter)),
{
    InstanceData {
        name: None,
        class: InstanceClass::ResponseHeaderModify,
        kind: InstanceType::Filter,
        config: InstanceConfig::HeaderModify { set: pairs_of(&filter.set), extend: pairs_of(&filter.add), remove: names_of(&filter.remove) },
    }
}

pub open spec fn min_int(a: int, b: int) -> int {
    if a <= b { a } else { b }
}

/// The share mirrored: `n/d` from a fraction (denominator 100 by default, numerator at most
/// the denominator), else `p%` from a percentage (at most 100), else none.
pub open spec fn mirror_possibility(f: HTTPRequestMirror) -> Option<Seq<char>> {
    match f.fraction {
        Some(fr) => {
            let d: int = match fr.denominator { Some(d) => d as int, None => 100 };
            Some(int_text(min_int(fr.numerator as int, d)) + "/"@ + int_text(d))
        },
        None => match f.percent {
            Some(p) => Some(int_text(min_int(p as int, 100)) + "%"@),
            None => None,
        },
    }
}

/// The target of mirrored requests.
pub open spec fn mirror_target(b: MirrorBackendRef) -> Seq<char> {
    target_name_text(b.name@, match b.namespace { Some(n) => Some(n@), None => None },
        match b.port { Some(p) => Some(p as u16), None => None })
}

/// The request mirror filter.
pub fn build_request_mirror(filter: &HTTPRequestMirror) -> (r: InstanceData)
    ensures
        instance_view(r) == filter_instance(InstanceClass::RequestMirror, InstanceConfigView::Mirror {
            target: mirror_target(filter.backend_ref), possibility: mirror_possibility(*filter) }),
{
    proof {
        reveal_strlit("");
        assert(""@ =~= Seq::<char>::empty());
    }
    let b = &filter.backend_ref;
    let ns = match &b.namespace { Some(n) => Some(n.as_str()), None => None };
    let port = match b.port { Some(p) => Some(p as u16), None => None };
    let target = target_name(b.name.as_str(), ns, port);
    let possibility = match &filter.fraction {
        Some(fr) => {
            let d: i32 = match fr.denominator { Some(d) => d, None => 100 };
            let n: i32 = if fr.numerator <= d { fr.numerator } else { d };
            let nt = i64_text(n as i64);
            let dt = i64_text(d as i64);
            Some(concat3(nt.as_str(), "/", dt.as_str()))
        },
        None => match filter.percent {
            Some(p) => {
                let q: i32 = if p <= 100 { p } else { 100 };
                let pt = i64_text(q as i64);
                Some(concat3(pt.as_str(), "%", ""))
            },
            None => None,
        },
    };
    let r = InstanceData {
        name: None,
        class: InstanceClass::RequestMirror,
        kind: InstanceType::Filter,
        config: InstanceConfig::Mirror { target, possibility },
    };
    r
}

/// The text of a path rewrite: `<prefix>/{*rest}` for a prefix replacement (empty prefix by
/// default), the full path (`/` by default) otherwise.
pub open spec fn path_modifier_text(p: HTTPPathModifier) -> Seq<char> {
    match p.kind {
        HTTPPathModifierType::ReplacePrefixMatch => match p.replace_prefix_match {
            Some(v) => v@ + "/{*rest}"@,
            None => "/{*rest}"@,
        },
        HTTPPathModifierType::ReplaceFullPath => match p.replace_full_path {
            Some(v) => v@,
            None => "/"@,
        },
    }
}

fn path_modifier(p: &HTTPPathModifier) -> (r: String)
    ensures
        r@ == path_modifier_text(*p),
{
    proof {
        reveal_strlit("");
        assert(""@ =~= Seq::<char>::empty());
    }
    match p.kind {
        HTTPPathModifierType::ReplacePrefixMatch => match &p.replace_prefix_match {
            Some(v) => concat3(v.as_str(), "/{*rest}", ""),
            None => owned("/{*rest}"),
        },
        HTTPPathModifierType::ReplaceFullPath => match &p.replace_full_path {
            Some(v) => v.clone(),
            None => owned("/"),
        },
    }
}

/// Where a redirect points: `<scheme>://<host><path>`, or `//<host><path>` without a scheme;
/// empty without a host name.
pub open spec fn redirect_to(f: HTTPRequestRedirect) -> Seq<char> {
    match f.hostname {
        Some(h) => {
            let path = match f.path { Some(p) => path_modifier_text(p), None => Seq::empty() };
            match f.scheme {
                Some(HTTPRedirectScheme::Http) => "http"@ + "://"@ + h@ + path,
                Some(HTTPRedirectScheme::Https) => "https"@ + "://"@ + h@ + path,
                None => "//"@ + h@ + path,
            }
        },
        None => Seq::empty(),
    }
}

/// The redirect filter.
pub fn build_redirect(filter: &HTTPRequestRedirect) -> (r: InstanceData)
    ensures
        instance_view(r) == filter_instance(InstanceClass::RequestRedirect, InstanceConfigView::Redirect {
            status_code: match filter.status_code { Some(c) => Some(c as u16), None => None },
            to: redirect_to(*filter) }),
{
    let status_code = match filter.status_code { Some(c) => Some(c as u16), None => None };
    let path = match &filter.path { Some(p) => path_modifier(p), None => String::new() };
    let to = match &filter.hostname {
        Some(h) => match filter.scheme {
            Some(HTTPRedirectScheme::Http) => concat4("http", "://", h.as_str(), path.as_str()),
            Some(HTTPRedirectScheme::Https) => concat4("https", "://", h.as_str(), path.as_str()),
            None => concat3("//", h.as_str(), path.as_str()),
        },
        None => String::new(),
    };
    InstanceData {
        name: None,
        class: InstanceClass::RequestRedirect,
        kind: InstanceType::Filter,
        config: InstanceConfig::Redirect { status_code, to },
    }
}

/// The URL rewrite filter.
pub fn build_url_rewrite(filter: &HTTPURLRewrite) -> (r: InstanceData)
    ensures
        instance_view(r) == filter_instance(InstanceClass::UrlRewrite, InstanceConfigView::UrlRewrite {
            path: match filter.path { Some(p) => Some(path_modifier_text(p)), None => None },
            hostname: match filter.hostname { Some(h) => Some(h@), None => None } }),
{
    let path = match &filter.path { Some(p) => Some(path_modifier(p)), None => None };
    let hostname = match &filter.hostname { Some(h) => Some(h.clone()), None => None };
    InstanceData {
        name: None,
        class: InstanceClass::UrlRewrite,
        kind: InstanceType::Filter,
        config: InstanceConfig::UrlRewrite { path, hostname },
    }
}

/// A header modifier with nothing to change.
pub open spec fn no_header_changes() -> InstanceConfigView {
    InstanceConfigView::HeaderModify { set: Seq::empty(), extend: Seq::empty(), remove: Seq::empty() }
}

/// The instance a filter becomes; a filter whose details are missing is built from empty details.
pub open spec fn filter_view(f: HTTPRouteFilter) -> InstanceView {
    match f.kind {
        HTTPRouteFilterType::RequestHeaderModifier => filter_instance(InstanceClass::RequestHeaderModify,
            match f.request_header_modifier { Some(m) => header_modify_view(m), None => no_header_changes() }),
        HTTPRouteFilterType::ResponseHeaderModifier => filter_instance(InstanceClass::ResponseHeaderModify,
            match f.response_header_modifier { Some(m) => header_modify_view(m), None => no_header_changes() }),
        HTTPRouteFilterType::RequestMirror => filter_instance(InstanceClass::RequestMirror,
            match f.request_mirror {
                Some(m) => InstanceConfigView::Mirror { target: mirror_target(m.backend_ref), possibility: mirror_possibility(m) },
                None => InstanceConfigView::Mirror { target: Seq::empty(), possibility: None },
            }),
        HTTPRouteFilterType::RequestRedirect => filter_instance(InstanceClass::RequestRedirect,
            match f.request_redirect {
                Some(m) => InstanceConfigView::Redirect {
                    status_code: match m.status_code { Some(c) => Some(c as u16), None => None },
                    to: redirect_to(m) },
                None => InstanceConfigView::Redirect { status_code: None, to: Seq::empty() },
            }),
        HTTPRouteFilterType::UrlRewrite => filter_instance(InstanceClass::UrlRewrite,
            match f.url_rewrite {
                Some(m) => InstanceConfigView::UrlRewrite {
                    path: match m.path { Some(p) => Some(path_modifier_text(p)), None => None },
                    hostname: match m.hostname { Some(h) => Some(h@), None => None } },
                None => InstanceConfigView::UrlRewrite { path: None, hostname: None },
            }),
        HTTPRouteFilterType::ExtensionRef => filter_instance(InstanceClass::ExtensionRef, InstanceConfigView::Empty),
    }
}

/// The instance of the HTTP service that a Gateway API filter becomes.
pub fn build_filter_instance_from_k8s_filter(k8s_filter: &HTTPRouteFilter) -> (r: InstanceData)
    ensures
        instance_view(r) == filter_view(*k8s_filter),
{
    match k8s_filter.kind {
        HTTPRouteFilterType::RequestHeaderModifier => match &k8s_filter.request_header_modifier {
            Some(f) => build_request_header_modify(f),
            None => {
                let r = build_request_header_modify(&HTTPHeaderModifier { add: None, set: None, remove: None });
                r
            },
        },
        HTTPRouteFilterType::ResponseHeaderModifier => match &k8s_filter.response_header_modifier {
            Some(f) => build_response_header_modify(f),
            None => build_response_header_modify(&HTTPHeaderModifier { add: None, set: None, remove: None }),
        },
        HTTPRouteFilterType::RequestMirror => match &k8s_filter.request_mirror {
            Some(f) => build_request_mirror(f),
            None => {
                let d = HTTPRequestMirror {
                    backend_ref: MirrorBackendRef { name: String::new(), namespace: None, port: None },
                    fraction: None,
                    percent: None,
                };
                build_request_mirror(&d)
            },
        },
        HTTPRouteFilterType::RequestRedirect => match &k8s_filter.request_redirect {
            Some(f) => build_redirect(f),
            None => build_redirect(&HTTPRequestRedirect { status_code: None, scheme: None, path: None, hostname: None }),
        },
        HTTPRouteFilterType::UrlRewrite => match &k8s_filter.url_rewrite {
            Some(f) => build_url_rewrite(f),
            None => build_url_rewrite(&HTTPURLRewrite { path: None, hostname: None }),
        },
        HTTPRouteFilterType::ExtensionRef => InstanceData {
            name: None,
            class: InstanceClass::ExtensionRef,
            kind: InstanceType::Filter,
            config: InstanceConfig::Empty,
        },
    }
}

/// Where a redirect with a host name points: without a scheme, to `//<host>` followed by the
/// path (just `//<host>` when no path is given); with a scheme, to the scheme the filter names
/// (`http` or `https`) and `:`, followed by where the same redirect without a scheme points.
/// Without a host name it points nowhere.
pub proof fn lemma_redirect_target(f: HTTPRequestRedirect)
    ensures
        f.hostname is None ==> redirect_to(f).len() == 0,
        f.hostname is Some ==> crate::text::has_prefix(
            redirect_to(HTTPRequestRedirect { scheme: None, ..f }), "//"@ + f.hostname->0@),
        f.hostname is Some && f.path is None ==>
            redirect_to(HTTPRequestRedirect { scheme: None, ..f }) == "//"@ + f.hostname->0@,
        f.hostname is Some && f.scheme == Some(HTTPRedirectScheme::Http) ==>
            redirect_to(f) == "http:"@ + redirect_to(HTTPRequestRedirect { scheme: None, ..f }),
        f.hostname is Some && f.scheme == Some(HTTPRedirectScheme::Https) ==>
            redirect_to(f) == "https:"@ + redirect_to(HTTPRequestRedirect { scheme: None, ..f }),
{
    reveal_strlit("http");
    reveal_strlit("https");
    reveal_strlit("://");
    reveal_strlit("//");
    reveal_strlit("http:");
    reveal_strlit("https:");
    let nos = HTTPRequestRedirect { scheme: None, ..f };
    match f.hostname {
        Some(h) => {
            let path = match f.path { Some(p) => path_modifier_text(p), None => Seq::<char>::empty() };
            assert(redirect_to(nos) == "//"@ + h@ + path);
            let t = "//"@ + h@;
            assert(("//"@ + h@ + path).subrange(0, t.len() as int) =~= t);
            if f.path is None {
                assert("//"@ + h@ + path =~= "//"@ + h@);
            }
            assert("http"@ + "://"@ + h@ + path =~= "http:"@ + ("//"@ + h@ + path));
            assert("https"@ + "://"@ + h@ + path =~= "https:"@ + ("//"@ + h@ + path));
        },
        None => {},
    }
}

/// The headers a modifier sets.
pub open spec fn modify_set(c: InstanceConfigView) -> Seq<(Seq<char>, Seq<char>)> {
    match c {
        InstanceConfigView::HeaderModify { set, .. } => set,
        _ => Seq::empty(),
    }
}

/// The headers a modifier adds.
pub open spec fn modify_extend(c: InstanceConfigView) -> Seq<(Seq<char>, Seq<char>)> {
    match c {
        InstanceConfigView::HeaderModify { extend, .. } => extend,
        _ => Seq::empty(),
    }
}

/// The headers a modifier removes.
pub open spec fn modify_remove(c: InstanceConfigView) -> Seq<Seq<char>> {
    match c {
        InstanceConfigView::HeaderModify { remove, .. } => remove,
        _ => Seq::empty(),
    }
}

/// A header modifier sets exactly the headers the filter's `set` lists, adds exactly those
/// of its `add`, and removes exactly the names of its `remove`, each in order and each with
/// its own name and value.
pub proof fn lemma_header_modify(f: HTTPHeaderModifier)
    ensures
        header_modify_view(f) is HeaderModify,
        modify_set(header_modify_view(f)).len() == match f.set { Some(v) => v@.len(), None => 0 },
        modify_extend(header_modify_view(f)).len() == match f.add { Some(v) => v@.len(), None => 0 },
        modify_remove(header_modify_view(f)).len() == match f.remove { Some(v) => v@.len(), None => 0 },
        f.set is Some ==> forall|k: int| 0 <= k < f.set->0@.len() ==>
            #[trigger] modify_set(header_modify_view(f))[k] == (f.set->0@[k].name@, f.set->0@[k].value@),
        f.add is Some ==> forall|k: int| 0 <= k < f.add->0@.len() ==>
            #[trigger] modify_extend(header_modify_view(f))[k] == (f.add->0@[k].name@, f.add->0@[k].value@),
        f.remove is Some ==> forall|k: int| 0 <= k < f.remove->0@.len() ==>
            #[trigger] modify_remove(header_modify_view(f))[k] == f.remove->0@[k]@,
{
}

/// The class of the instance a filter becomes follows its type: request and response
/// header modifiers, mirror, redirect, URL rewrite and extension reference each become the
/// instance of that class, and a header modifier takes its details from the modifier of
/// its own direction.
pub proof fn lemma_filter_classes(f: HTTPRouteFilter)
    ensures
        filter_view(f).kind == InstanceType::Filter,
        !filter_view(f).named,
        f.kind == HTTPRouteFilterType::RequestHeaderModifier ==> filter_view(f).class == InstanceClass::RequestHeaderModify,
        f.kind == HTTPRouteFilterType::ResponseHeaderModifier ==> filter_view(f).class == InstanceClass::ResponseHeaderModify,
        f.kind == HTTPRouteFilterType::RequestMirror ==> filter_view(f).class == InstanceClass::RequestMirror,
        f.kind == HTTPRouteFilterType::RequestRedirect ==> filter_view(f).class == InstanceClass::RequestRedirect,
        f.kind == HTTPRouteFilterType::UrlRewrite ==> filter_view(f).class == InstanceClass::UrlRewrite,
        f.kind == HTTPRouteFilterType::ExtensionRef ==> filter_view(f).class == InstanceClass::ExtensionRef,
        f.kind == HTTPRouteFilterType::RequestHeaderModifier && f.request_header_modifier is Some
            ==> filter_view(f).config == header_modify_view(f.request_header_modifier->0),
        f.kind == HTTPRouteFilterType::ResponseHeaderModifier && f.response_header_modifier is Some
            ==> filter_view(f).config == header_modify_view(f.response_header_modifier->0),
{
}

/// A path rewrite: replacing the prefix with `v` gives `v` followed by `/{*rest}` (the empty
/// prefix when none is given); replacing the full path with `v` gives `v` itself (`/` when
/// none is given).
pub proof fn lemma_path_modifier(p: HTTPPathModifier)
    ensures
        p.kind == HTTPPathModifierType::ReplacePrefixMatch ==> path_modifier_text(p)
            == (match p.replace_prefix_match { Some(v) => v@, None => Seq::<char>::empty() }) + "/{*rest}"@,
        p.kind == HTTPPathModifierType::ReplaceFullPath && p.replace_full_path is Some
            ==> path_modifier_text(p) == p.replace_full_path->0@,
        p.kind == HTTPPathModifierType::ReplaceFullPath && p.replace_full_path is None
            ==> path_modifier_text(p) == seq!['/'],
{
    reveal_strlit("/");
    if p.kind == HTTPPathModifierType::ReplacePrefixMatch && p.replace_prefix_match is None {
        assert(Seq::<char>::empty() + "/{*rest}"@ =~= "/{*rest}"@);
    }
}

/// A redirect keeps the status code it is given.
pub proof fn lemma_redirect_status(f: HTTPRouteFilter)
    ensures
        f.kind == HTTPRouteFilterType::RequestRedirect && f.request_redirect is Some
            && f.request_redirect->0.status_code is Some && 0 <= f.request_redirect->0.status_code->0 <= u16::MAX
            ==> filter_view(f).config == (InstanceConfigView::Redirect {
                status_code: Some(f.request_redirect->0.status_code->0 as u16),
                to: redirect_to(f.request_redirect->0),
            }),
{
}

/// The share of requests a mirror copies: a fraction `n/d` (denominator 100 when none is
/// given) takes precedence over a percentage, the numerator being cut down to the
/// denominator; a percentage `p%` is cut down to 100; with neither, no share is given.
pub proof fn lemma_mirror_share(f: HTTPRequestMirror)
    ensures
        f.fraction is Some && f.fraction->0.denominator is Some && f.fraction->0.numerator <= f.fraction->0.denominator->0
            ==> mirror_possibility(f) == Some(int_text(f.fraction->0.numerator as int) + "/"@ + int_text(f.fraction->0.denominator->0 as int)),
        f.fraction is Some && f.fraction->0.denominator is Some && f.fraction->0.numerator > f.fraction->0.denominator->0
            ==> mirror_possibility(f) == Some(int_text(f.fraction->0.denominator->0 as int) + "/"@ + int_text(f.fraction->0.denominator->0 as int)),
        f.fraction is Some && f.fraction->0.denominator is None && f.fraction->0.numerator <= 100
            ==> mirror_possibility(f) == Some(int_text(f.fraction->0.numerator as int) + "/"@ + int_text(100)),
        f.fraction is None && f.percent is Some && f.percent->0 <= 100
            ==> mirror_possibility(f) == Some(int_text(f.percent->0 as int) + "%"@),
        f.fraction is None && f.percent is Some && f.percent->0 > 100
            ==> mirror_possibility(f) == Some(int_text(100) + "%"@),
        f.fraction is None && f.percent is None ==> mirror_possibility(f) is None,
{
}

} // verus!
