//! Gateway API matches as router rules.
use vstd::prelude::*;
use crate::text::{chars_of, concat2, owned, same_text, string_of_range, texts};
use crate::seqs::dedup_seq;
use crate::keyed::KeyedVec;
use crate::controller::resolve::k8s::service_config::http::filter::{
    build_filter_instance_from_k8s_filter, filter_id, filter_id_text, filter_view,
};
use crate::controller::resolve::k8s::service_config::http::backend::backend_target;
use crate::controller::resolve::k8s::service_config::http::{
    HTTPRouteFilter, HTTPRouteRules, HTTPRouteRulesMatches, HTTPRouteRulesMatchesPathType, HttpGatewayBuilder,
    InstanceView, NodeOutput, NodePort, NodeTarget, PathTree, RuleBucket, RuleMatchView, instances_view,
    node_output_view, path_tree_view, rule_match_view,
    HTTPRouteRulesMatchesHeaders, HTTPRouteRulesMatchesMethod, HTTPRouteRulesMatchesQueryParams,
    HTTPRouteRulesMatchesValueType,
};

verus! {

/// A value compared literally or as a regular expression.
#[derive(Debug)]
pub enum RegexOrExact {
    Exact(String),
    Regex(String),
}

/// A header a request must carry.
#[derive(Debug)]
pub struct HeaderMatch {
    pub header_name: String,
    pub header_value: RegexOrExact,
}

/// A query parameter a request must carry.
#[derive(Debug)]
pub struct QueryMatch {
    pub query_name: String,
    pub query_value: RegexOrExact,
}

/// A router rule: method, headers and queries a request must have.
#[derive(Debug)]
pub struct RuleMatch {
    pub method: Option<String>,
    pub headers: Vec<HeaderMatch>,
    pub queries: Vec<QueryMatch>,
}

impl RegexOrExact {
    /// A copy.
    pub fn duplicate(&self) -> (r: Self)
        ensures
            regex_or_exact_view(r) == regex_or_exact_view(*self),
    {
        match self {
            RegexOrExact::Exact(s) => RegexOrExact::Exact(s.clone()),
            RegexOrExact::Regex(s) => RegexOrExact::Regex(s.clone()),
        }
    }
}

impl RuleMatch {
    /// A copy.
    pub fn duplicate(&self) -> (r: Self)
        ensures
            rule_match_view(r) == rule_match_view(*self),
    {
        let method = match &self.method { Some(m) => Some(m.clone()), None => None };
        let mut headers: Vec<HeaderMatch> = Vec::new();
        let mut i: usize = 0;
        while i < self.headers.len()
            invariant
                i <= self.headers@.len(),
                headers@.len() == i,
                forall|k: int| 0 <= k < i ==> #[trigger] headers@[k].header_name@ == self.headers@[k].header_name@
                    && regex_or_exact_view(headers@[k].header_value) == regex_or_exact_view(self.headers@[k].header_value),
            decreases self.headers@.len() - i,
        {
            let h = &self.headers[i];
            let copy = HeaderMatch { header_name: h.header_name.clone(), header_value: h.header_value.duplicate() };
            let ghost before = headers@;
            headers.push(copy);
            assert forall|k: int| 0 <= k < i + 1 implies #[trigger] headers@[k].header_name@ == self.headers@[k].header_name@
                && regex_or_exact_view(headers@[k].header_value) == regex_or_exact_view(self.headers@[k].header_value) by {
                if k < i {
                    assert(headers@[k] == before[k]);
                }
            }
            i = i + 1;
        }
        let mut queries: Vec<QueryMatch> = Vec::new();
        let mut j: usize = 0;
        while j < self.queries.len()
            invariant
                j <= self.queries@.len(),
                queries@.len() == j,
                forall|k: int| 0 <= k < j ==> #[trigger] queries@[k].query_name@ == self.queries@[k].query_name@
                    && regex_or_exact_view(queries@[k].query_value) == regex_or_exact_view(self.queries@[k].query_value),
            decreases self.queries@.len() - j,
        {
            let q = &self.queries[j];
            let copy = QueryMatch { query_name: q.query_name.clone(), query_value: q.query_value.duplicate() };
            let ghost before = queries@;
            queries.push(copy);
            assert(forall|k: int| 0 <= k < j ==> queries@[k] == before[k]);
            j = j + 1;
        }
        let r = RuleMatch { method, headers, queries };
        proof {
            assert(rule_match_view(r).1 =~= rule_match_view(*self).1);
            assert(rule_match_view(r).2 =~= rule_match_view(*self).2);
        }
        r
    }
}

/// The value of a compared value: whether it is a regular expression, and its text.
pub open spec fn regex_or_exact_view(v: RegexOrExact) -> (bool, Seq<char>) {
    match v {
        RegexOrExact::Exact(s) => (false, s@),
        RegexOrExact::Regex(s) => (true, s@),
    }
}

/// The method name sent on the wire.
pub open spec fn method_text(m: HTTPRouteRulesMatchesMethod) -> Seq<char> {
    match m {
        HTTPRouteRulesMatchesMethod::Get => "GET"@,
        HTTPRouteRulesMatchesMethod::Head => "HEAD"@,
        HTTPRouteRulesMatchesMethod::Post => "POST"@,
        HTTPRouteRulesMatchesMethod::Put => "PUT"@,
        HTTPRouteRulesMatchesMethod::Delete => "DELETE"@,
        HTTPRouteRulesMatchesMethod::Connect => "CONNECT"@,
        HTTPRouteRulesMatchesMethod::Options => "OPTIONS"@,
        HTTPRouteRulesMatchesMethod::Trace => "TRACE"@,
        HTTPRouteRulesMatchesMethod::Patch => "PATCH"@,
    }
}

/// The method name of a Gateway API method.
pub fn k8s_method_to_http_method(method: &HTTPRouteRulesMatchesMethod) -> (r: String)
    ensures
        r@ == method_text(*method),
{
    match method {
        HTTPRouteRulesMatchesMethod::Get => owned("GET"),
        HTTPRouteRulesMatchesMethod::Head => owned("HEAD"),
        HTTPRouteRulesMatchesMethod::Post => owned("POST"),
        HTTPRouteRulesMatchesMethod::Put => owned("PUT"),
        HTTPRouteRulesMatchesMethod::Delete => owned("DELETE"),
        HTTPRouteRulesMatchesMethod::Connect => owned("CONNECT"),
        HTTPRouteRulesMatchesMethod::Options => owned("OPTIONS"),
        HTTPRouteRulesMatchesMethod::Trace => owned("TRACE"),
        HTTPRouteRulesMatchesMethod::Patch => owned("PATCH"),
    }
}

/// A value is a regular expression only when its type says so; exact by default.
pub open spec fn is_regex(t: Option<HTTPRouteRulesMatchesValueType>) -> bool {
    t matches Some(HTTPRouteRulesMatchesValueType::RegularExpression)
}

/// The router's header rule for a Gateway API header match.
pub fn k8s_header_match_to_http_header_match(header: &HTTPRouteRulesMatchesHeaders) -> (r: HeaderMatch)
    ensures
        r.header_name@ == header.name@,
        regex_or_exact_view(r.header_value) == (is_regex(header.kind), header.value@),
{
    let header_name = header.name.clone();
    match header.kind {
        Some(HTTPRouteRulesMatchesValueType::RegularExpression) => HeaderMatch {
            header_name,
            header_value: RegexOrExact::Regex(header.value.clone()),
        },
        _ => HeaderMatch { header_name, header_value: RegexOrExact::Exact(header.value.clone()) },
    }
}

/// The router's query rule for a Gateway API query match.
pub fn k8s_query_match_to_http_query_match(query: &HTTPRouteRulesMatchesQueryParams) -> (r: QueryMatch)
    ensures
        r.query_name@ == query.name@,
        regex_or_exact_view(r.query_value) == (is_regex(query.kind), query.value@),
{
    match query.kind {
        Some(HTTPRouteRulesMatchesValueType::RegularExpression) => QueryMatch {
            query_name: query.name.clone(),
            query_value: RegexOrExact::Regex(query.value.clone()),
        },
        _ => QueryMatch { query_name: query.name.clone(), query_value: RegexOrExact::Exact(query.value.clone()) },
    }
}

/// `s` without its trailing `/` characters.
pub open spec fn trim_trailing_slashes(s: Seq<char>) -> Seq<char>
    decreases s.len(),
{
    if s.len() > 0 && s.last() == '/' {
        trim_trailing_slashes(s.drop_last())
    } else {
        s
    }
}

/// The path value of a match, `/` by default.
pub open spec fn match_path_value(m: HTTPRouteRulesMatches) -> Seq<char> {
    match m.path {
        Some(p) => match p.value { Some(v) => v@, None => "/"@ },
        None => "/"@,
    }
}

/// The path tree key of a match: the path itself when exact or a regular expression; for a
/// prefix (the default), the path without trailing slashes followed by `{*rest}`.
pub open spec fn match_key(m: HTTPRouteRulesMatches) -> Seq<char> {
    let kind = match m.path { Some(p) => p.kind, None => None };
    match kind {
        Some(HTTPRouteRulesMatchesPathType::Exact) => match_path_value(m),
        Some(HTTPRouteRulesMatchesPathType::RegularExpression) => match_path_value(m),
        _ => trim_trailing_slashes(match_path_value(m)) + "{*rest}"@,
    }
}

/// The rule of a match: method, headers, queries.
pub open spec fn match_rule_view(m: HTTPRouteRulesMatches) -> RuleMatchView {
    (match m.method { Some(x) => Some(method_text(x)), None => None },
        match m.headers {
            Some(hs) => hs@.map_values(|h: HTTPRouteRulesMatchesHeaders| (h.name@, (is_regex(h.kind), h.value@))),
            None => Seq::empty(),
        },
        match m.query_params {
            Some(qs) => qs@.map_values(|q: HTTPRouteRulesMatchesQueryParams| (q.name@, (is_regex(q.kind), q.value@))),
            None => Seq::empty(),
        })
}

/// The rules of the matches whose key is `k`, in order.
pub open spec fn rules_with_key(ms: Seq<HTTPRouteRulesMatches>, k: Seq<char>) -> Seq<RuleMatchView>
    decreases ms.len(),
{
    if ms.len() == 0 {
        Seq::empty()
    } else if match_key(ms.last()) == k {
        rules_with_key(ms.drop_last(), k).push(match_rule_view(ms.last()))
    } else {
        rules_with_key(ms.drop_last(), k)
    }
}

/// The path entries of a rule: one per distinct key, in order of first occurrence, with the
/// rules of the matches of that key leading to `target`.
pub open spec fn bucket_entries(ms: Seq<HTTPRouteRulesMatches>, target: Seq<char>) -> Seq<(Seq<char>, (Seq<char>, Seq<RuleMatchView>))> {
    dedup_seq(ms.map_values(|m: HTTPRouteRulesMatches| match_key(m)))
        .map_values(|k: Seq<char>| (k, (target, rules_with_key(ms, k))))
}

/// The flow instances after adding the first `fs.len()` filters of a rule.
pub open spec fn insert_rule_filters(m: Map<Seq<char>, InstanceView>, target: Seq<char>, fs: Seq<HTTPRouteFilter>) -> Map<Seq<char>, InstanceView>
    decreases fs.len(),
{
    if fs.len() == 0 {
        m
    } else {
        insert_rule_filters(m, target, fs.drop_last())
            .insert(filter_id_text(target, (fs.len() - 1) as nat), filter_view(fs.last()))
    }
}

/// The filter ids of a rule with output `target`.
pub open spec fn rule_filter_ids(target: Seq<char>, n: nat) -> Seq<Seq<char>> {
    Seq::new(n, |i: int| filter_id_text(target, i as nat))
}

/// The router rule of a match.
pub fn rule_from_match(m: &HTTPRouteRulesMatches) -> (r: RuleMatch)
    ensures
        rule_match_view(r) == match_rule_view(*m),
{
    let method = match &m.method { Some(x) => Some(k8s_method_to_http_method(x)), None => None };
    let mut headers: Vec<HeaderMatch> = Vec::new();
    match &m.headers {
        Some(hs) => {
            let mut i: usize = 0;
            while i < hs.len()
                invariant
                    i <= hs@.len(),
                    headers@.len() == i,
                    forall|k: int| 0 <= k < i ==> #[trigger] headers@[k].header_name@ == hs@[k].name@
                        && regex_or_exact_view(headers@[k].header_value) == (is_regex(hs@[k].kind), hs@[k].value@),
                decreases hs@.len() - i,
            {
                let h = k8s_header_match_to_http_header_match(&hs[i]);
                let ghost before = headers@;
                headers.push(h);
                assert forall|k: int| 0 <= k < i + 1 implies #[trigger] headers@[k].header_name@ == hs@[k].name@
                    && regex_or_exact_view(headers@[k].header_value) == (is_regex(hs@[k].kind), hs@[k].value@) by {
                    if k < i {
                        assert(headers@[k] == before[k]);
                    }
                }
                i = i + 1;
            }
        },
        None => {},
    }
    let mut queries: Vec<QueryMatch> = Vec::new();
    match &m.query_params {
        Some(qs) => {
            let mut i: usize = 0;
            while i < qs.len()
                invariant
                    i <= qs@.len(),
                    queries@.len() == i,
                    forall|k: int| 0 <= k < i ==> #[trigger] queries@[k].query_name@ == qs@[k].name@
                        && regex_or_exact_view(queries@[k].query_value) == (is_regex(qs@[k].kind), qs@[k].value@),
                decreases qs@.len() - i,
            {
                let q = k8s_query_match_to_http_query_match(&qs[i]);
                let ghost before = queries@;
                queries.push(q);
                assert(forall|k: int| 0 <= k < i ==> queries@[k] == before[k]);
                i = i + 1;
            }
        },
        None => {},
    }
    let r = RuleMatch { method, headers, queries };
    proof {
        assert(rule_match_view(r).1 =~= match_rule_view(*m).1);
        assert(rule_match_view(r).2 =~= match_rule_view(*m).2);
    }
    r
}

/// `s` without its trailing `/` characters.
fn trim_end_slashes(s: &str) -> (r: String)
    ensures
        r@ == trim_trailing_slashes(s@),
{
    let v = chars_of(s);
    let mut n: usize = v.len();
    assert(v@.subrange(0, n as int) =~= v@);
    while n > 0 && v[n - 1] == '/'
        invariant
            n <= v@.len(),
            trim_trailing_slashes(v@) == trim_trailing_slashes(v@.subrange(0, n as int)),
        decreases n,
    {
        proof {
            let t = v@.subrange(0, n as int);
            assert(t.drop_last() =~= v@.subrange(0, n - 1));
        }
        n = n - 1;
    }
    string_of_range(&v, 0, n)
}

/// The path tree key of a match.
pub fn match_key_of(m: &HTTPRouteRulesMatches) -> (r: String)
    ensures
        r@ == match_key(*m),
{
    let value: String = match &m.path {
        Some(p) => match &p.value { Some(v) => v.clone(), None => owned("/") },
        None => owned("/"),
    };
    let is_exact_or_regex = match &m.path {
        Some(p) => match &p.kind {
            Some(HTTPRouteRulesMatchesPathType::Exact) => true,
            Some(HTTPRouteRulesMatchesPathType::RegularExpression) => true,
            _ => false,
        },
        None => false,
    };
    if is_exact_or_regex {
        value
    } else {
        let trimmed = trim_end_slashes(value.as_str());
        concat2(trimmed.as_str(), "{*rest}")
    }
}

/// Keeps the first occurrence of each text.
pub fn dedup_texts(keys: &Vec<String>) -> (r: Vec<String>)
    ensures
        texts(r@) == dedup_seq(texts(keys@)),
{
    let mut r: Vec<String> = Vec::new();
    let mut i: usize = 0;
    while i < keys.len()
        invariant
            i <= keys@.len(),
            texts(r@) == dedup_seq(texts(keys@).take(i as int)),
        decreases keys@.len() - i,
    {
        let mut found = false;
        let mut j: usize = 0;
        while j < r.len()
            invariant
                j <= r@.len(),
                i < keys@.len(),
                found == exists|k: int| 0 <= k < j && r@[k]@ == keys@[i as int]@,
            decreases r@.len() - j,
        {
            if same_text(r[j].as_str(), keys[i].as_str()) {
                found = true;
            }
            j = j + 1;
        }
        let ghost prev = r@;
        proof {
            let t = texts(keys@).take(i + 1);
            assert(t.drop_last() =~= texts(keys@).take(i as int));
            assert(t.last() == keys@[i as int]@);
            if found {
                let k = choose|k: int| 0 <= k < j && r@[k]@ == keys@[i as int]@;
                assert(texts(r@)[k] == t.last());
            } else {
                assert forall|k: int| 0 <= k < texts(r@).len() implies texts(r@)[k] != t.last() by {
                    assert(texts(r@)[k] == r@[k]@);
                }
            }
        }
        if !found {
            r.push(keys[i].clone());
            assert(texts(r@) =~= texts(prev).push(keys@[i as int]@));
        }
        i = i + 1;
    }
    assert(texts(keys@).take(keys@.len() as int) =~= texts(keys@));
    r
}

/// The rules of the matches whose key is `k`, in order.
fn rules_for_key(ms: &Vec<HTTPRouteRulesMatches>, keys: &Vec<String>, k: &str) -> (r: Vec<RuleMatch>)
    requires
        keys@.len() == ms@.len(),
        forall|i: int| 0 <= i < ms@.len() ==> #[trigger] keys@[i]@ == match_key(ms@[i]),
    ensures
        r@.map_values(|x: RuleMatch| rule_match_view(x)) == rules_with_key(ms@, k@),
{
    let mut r: Vec<RuleMatch> = Vec::new();
    let mut i: usize = 0;
    while i < ms.len()
        invariant
            i <= ms@.len(),
            keys@.len() == ms@.len(),
            forall|j: int| 0 <= j < ms@.len() ==> #[trigger] keys@[j]@ == match_key(ms@[j]),
            r@.map_values(|x: RuleMatch| rule_match_view(x)) == rules_with_key(ms@.take(i as int), k@),
        decreases ms@.len() - i,
    {
        let ghost before = r@;
        proof {
            let t = ms@.take(i + 1);
            assert(t.drop_last() =~= ms@.take(i as int));
            assert(t.last() == ms@[i as int]);
            assert(keys@[i as int]@ == match_key(ms@[i as int]));
        }
        if same_text(keys[i].as_str(), k) {
            let rule = rule_from_match(&ms[i]);
            r.push(rule);
            assert(r@.map_values(|x: RuleMatch| rule_match_view(x)) =~= before.map_values(|x: RuleMatch| rule_match_view(x))
                .push(match_rule_view(ms@[i as int])));
        }
        i = i + 1;
    }
    assert(ms@.take(ms@.len() as int) =~= ms@);
    r
}

/// Adds to `path_tree` the entries of a rule's matches: one per distinct key, leading to `target`.
fn insert_buckets(ms: &Vec<HTTPRouteRulesMatches>, target: &str, path_tree: &mut PathTree)
    ensures
        path_tree_view(*final(path_tree)) == path_tree_view(*old(path_tree)) + bucket_entries(ms@, target@),
{
    let mut keys: Vec<String> = Vec::new();
    let mut i: usize = 0;
    while i < ms.len()
        invariant
            i <= ms@.len(),
            keys@.len() == i,
            forall|j: int| 0 <= j < i ==> #[trigger] keys@[j]@ == match_key(ms@[j]),
        decreases ms@.len() - i,
    {
        keys.push(match_key_of(&ms[i]));
        i = i + 1;
    }
    let ghost all_keys = ms@.map_values(|m: HTTPRouteRulesMatches| match_key(m));
    assert(texts(keys@) =~= all_keys);
    let distinct = dedup_texts(&keys);
    let ghost entries = bucket_entries(ms@, target@);
    let mut j: usize = 0;
    while j < distinct.len()
        invariant
            j <= distinct@.len(),
            texts(distinct@) == dedup_seq(all_keys),
            all_keys == ms@.map_values(|m: HTTPRouteRulesMatches| match_key(m)),
            entries == bucket_entries(ms@, target@),
            keys@.len() == ms@.len(),
            forall|x: int| 0 <= x < ms@.len() ==> #[trigger] keys@[x]@ == match_key(ms@[x]),
            path_tree_view(*path_tree) == path_tree_view(*old(path_tree)) + entries.take(j as int),
        decreases distinct@.len() - j,
    {
        let rules = rules_for_key(ms, &keys, distinct[j].as_str());
        let bucket = RuleBucket { target: owned(target), rules };
        proof {
            assert(texts(distinct@)[j as int] == distinct@[j as int]@);
            assert(entries[j as int] == (distinct@[j as int]@, (target@, rules_with_key(ms@, distinct@[j as int]@))));
            assert(entries.take(j + 1) =~= entries.take(j as int).push(entries[j as int]));
        }
        path_tree.insert(distinct[j].clone(), bucket);
        j = j + 1;
    }
    assert(entries.take(entries.len() as int) =~= entries);
}

/// The matches of a rule (none when absent).
pub open spec fn rule_matches(r: HTTPRouteRules) -> Seq<HTTPRouteRulesMatches> {
    match r.matches { Some(v) => v@, None => Seq::empty() }
}

/// The filters of a rule (none when absent).
pub open spec fn rule_filters(r: HTTPRouteRules) -> Seq<HTTPRouteFilter> {
    match r.filters { Some(v) => v@, None => Seq::empty() }
}

/// The flow filters after a rule's backends, and the instance its requests go to: the
/// internal error page when the rule names no backends.
pub open spec fn rule_backend_target(
    fm: Map<Seq<char>, InstanceView>,
    target: Seq<char>,
    r: HTTPRouteRules,
    internal: Seq<char>,
) -> (Map<Seq<char>, InstanceView>, Seq<char>) {
    match r.backend_refs {
        Some(bs) => backend_target(fm, target, bs@, internal),
        None => (fm, internal),
    }
}

/// The router output of a rule: its target (default port) and its filter ids.
pub open spec fn rule_output_view(target_id: Seq<char>, target: Seq<char>, r: HTTPRouteRules) -> ((Seq<char>, Option<Seq<char>>), Seq<Seq<char>>) {
    ((target_id, None), rule_filter_ids(target, rule_filters(r).len()))
}

impl HttpGatewayBuilder {
    /// Adds one rule of a route: its backends and filters join the flow, its matches join
    /// `path_tree` under the output named `target_name`, and that output is returned.
    pub fn build_rule(
        &mut self,
        rules: &HTTPRouteRules,
        target_name: &str,
        path_tree: &mut PathTree,
    ) -> (r: (String, NodeOutput))
        ensures
            final(self).config.flow.nodes.map() == old(self).config.flow.nodes.map(),
            final(self).config.flow.entrypoint == old(self).config.flow.entrypoint,
            final(self).internal_error_500_page_instance_id == old(self).internal_error_500_page_instance_id,
            instances_view(final(self).config.flow.instances.map())
                == insert_rule_filters(instances_view(old(self).config.flow.instances.map()), target_name@, rule_filters(*rules)),
            ({
                let bt = rule_backend_target(instances_view(old(self).config.flow.filters.map()), target_name@, *rules,
                    old(self).internal_error_500_page_instance_id@);
                &&& instances_view(final(self).config.flow.filters.map()) == bt.0
                &&& node_output_view(r.1) == rule_output_view(bt.1, target_name@, *rules)
            }),
            r.0@ == target_name@,
            path_tree_view(*final(path_tree)) == path_tree_view(*old(path_tree)) + bucket_entries(rule_matches(*rules), target_name@),
    {
        let output_target = match &rules.backend_refs {
            Some(bs) => self.build_backend_instance_from_k8s_backend_ref(target_name, bs),
            None => NodeTarget { id: self.internal_error_500_page_instance_id.clone(), port: NodePort::Default },
        };
        let ghost m0 = instances_view(self.config.flow.instances.map());
        let ghost fm1 = self.config.flow.filters.map();
        let ghost bt = rule_backend_target(instances_view(old(self).config.flow.filters.map()), target_name@, *rules,
            old(self).internal_error_500_page_instance_id@);
        assert(instances_view(fm1) == bt.0 && output_target.id@ == bt.1 && output_target.port is Default);
        let mut filter_ids: Vec<String> = Vec::new();
        match &rules.filters {
            Some(filters) => {
                let mut i: usize = 0;
                while i < filters.len()
                    invariant
                        i <= filters@.len(),
                        rule_filters(*rules) == filters@,
                        instances_view(self.config.flow.instances.map()) == insert_rule_filters(m0, target_name@, filters@.take(i as int)),
                        texts(filter_ids@) == rule_filter_ids(target_name@, i as nat),
                        self.config.flow.filters.map() == fm1,
                        self.config.flow.nodes.map() == old(self).config.flow.nodes.map(),
                        self.config.flow.entrypoint == old(self).config.flow.entrypoint,
                        self.internal_error_500_page_instance_id == old(self).internal_error_500_page_instance_id,
                    decreases filters@.len() - i,
                {
                    let id = filter_id(target_name, i);
                    let instance = build_filter_instance_from_k8s_filter(&filters[i]);
                    let ghost before = self.config.flow.instances.map();
                    let ghost ids_before = filter_ids@;
                    filter_ids.push(id.clone());
                    self.config.flow.instances.insert(id, instance);
                    proof {
                        let t = filters@.take(i + 1);
                        assert(t.drop_last() =~= filters@.take(i as int));
                        assert(t.last() == filters@[i as int]);
                        assert(instances_view(self.config.flow.instances.map()) =~= instances_view(before).insert(
                            filter_id_text(target_name@, i as nat), filter_view(filters@[i as int])));
                        assert(texts(filter_ids@) =~= texts(ids_before).push(filter_id_text(target_name@, i as nat)));
                        assert(texts(filter_ids@) =~= rule_filter_ids(target_name@, (i + 1) as nat));
                    }
                    i = i + 1;
                }
                assert(filters@.take(filters@.len() as int) =~= filters@);
            },
            None => {
                assert(texts(filter_ids@) =~= rule_filter_ids(target_name@, 0));
            },
        }
        match &rules.matches {
            Some(ms) => insert_buckets(ms, target_name, path_tree),
            None => {
                assert(bucket_entries(Seq::<HTTPRouteRulesMatches>::empty(), target_name@) =~= Seq::empty());
                assert(path_tree_view(*path_tree) =~= path_tree_view(*old(path_tree)) + Seq::empty());
            },
        }
        (owned(target_name), NodeOutput { target: output_target, filters: filter_ids })
    }
}

/// The router rule built from a match compares each header and each query parameter of the
/// match, in order, by its name and value, as a regular expression exactly when the match
/// says its type is `RegularExpression` (exact comparison otherwise); queries and headers
/// are treated alike.
pub proof fn lemma_match_value_kinds(m: HTTPRouteRulesMatches)
    ensures
        m.headers is Some ==> match_rule_view(m).1.len() == m.headers->0@.len(),
        m.query_params is Some ==> match_rule_view(m).2.len() == m.query_params->0@.len(),
        m.headers is Some ==> forall|k: int| 0 <= k < m.headers->0@.len() ==> {
            let h = #[trigger] m.headers->0@[k];
            &&& match_rule_view(m).1[k].0 == h.name@
            &&& match_rule_view(m).1[k].1.1 == h.value@
            &&& (match_rule_view(m).1[k].1.0 <==> h.kind == Some(HTTPRouteRulesMatchesValueType::RegularExpression))
        },
        m.query_params is Some ==> forall|k: int| 0 <= k < m.query_params->0@.len() ==> {
            let q = #[trigger] m.query_params->0@[k];
            &&& match_rule_view(m).2[k].0 == q.name@
            &&& match_rule_view(m).2[k].1.1 == q.value@
            &&& (match_rule_view(m).2[k].1.0 <==> q.kind == Some(HTTPRouteRulesMatchesValueType::RegularExpression))
        },
{
}

/// Trimming trailing slashes keeps a prefix of the text, drops only `/` characters, and
/// leaves no `/` at the end.
pub proof fn lemma_trim_trailing_slashes(s: Seq<char>)
    ensures
        trim_trailing_slashes(s).len() <= s.len(),
        trim_trailing_slashes(s) == s.take(trim_trailing_slashes(s).len() as int),
        forall|i: int| trim_trailing_slashes(s).len() <= i < s.len() ==> s[i] == '/',
        trim_trailing_slashes(s).len() > 0 ==> trim_trailing_slashes(s).last() != '/',
    decreases s.len(),
{
    if s.len() > 0 && s.last() == '/' {
        lemma_trim_trailing_slashes(s.drop_last());
        let t = trim_trailing_slashes(s.drop_last());
        assert(s.drop_last().take(t.len() as int) =~= s.take(t.len() as int));
        assert forall|i: int| t.len() <= i < s.len() implies s[i] == '/' by {
            if i < s.len() - 1 {
                assert(s.drop_last()[i] == s[i]);
            }
        }
    } else {
        assert(s.take(s.len() as int) =~= s);
    }
}

/// The path-tree key of a match: an exact or regular-expression path is the key itself; a
/// prefix path (the type when none is given) becomes the path without its trailing slashes
/// followed by `{*rest}`, so `/api/` and `/api` give the same key; with no path at all the
/// key is `{*rest}`, which matches every path.
pub proof fn lemma_match_key(m: HTTPRouteRulesMatches)
    ensures
        m.path is Some && m.path->0.kind == Some(HTTPRouteRulesMatchesPathType::Exact) && m.path->0.value is Some
            ==> match_key(m) == m.path->0.value->0@,
        m.path is Some && m.path->0.kind == Some(HTTPRouteRulesMatchesPathType::RegularExpression)
            && m.path->0.value is Some ==> match_key(m) == m.path->0.value->0@,
        m.path is None ==> match_key(m) == "{*rest}"@,
        (m.path is None || !(m.path->0.kind == Some(HTTPRouteRulesMatchesPathType::Exact)
            || m.path->0.kind == Some(HTTPRouteRulesMatchesPathType::RegularExpression))) ==> {
            let v = match_path_value(m);
            let t = trim_trailing_slashes(v);
            &&& match_key(m) == t + "{*rest}"@
            &&& t == v.take(t.len() as int)
            &&& (forall|i: int| t.len() <= i < v.len() ==> v[i] == '/')
            &&& (t.len() > 0 ==> t.last() != '/')
        },
{
    lemma_trim_trailing_slashes(match_path_value(m));
    if m.path is None {
        reveal_strlit("/");
        let v = "/"@;
        assert(v.len() == 1 && v.last() == '/');
        assert(v.drop_last() =~= Seq::<char>::empty());
        assert(trim_trailing_slashes(Seq::<char>::empty()) == Seq::<char>::empty());
        assert(Seq::<char>::empty() + "{*rest}"@ =~= "{*rest}"@);
    }
}

/// The method of a router rule is the upper-case name of the Gateway API method.
pub proof fn lemma_method_names()
    ensures
        method_text(HTTPRouteRulesMatchesMethod::Get) == "GET"@,
        method_text(HTTPRouteRulesMatchesMethod::Head) == "HEAD"@,
        method_text(HTTPRouteRulesMatchesMethod::Post) == "POST"@,
        method_text(HTTPRouteRulesMatchesMethod::Put) == "PUT"@,
        method_text(HTTPRouteRulesMatchesMethod::Delete) == "DELETE"@,
        method_text(HTTPRouteRulesMatchesMethod::Connect) == "CONNECT"@,
        method_text(HTTPRouteRulesMatchesMethod::Options) == "OPTIONS"@,
        method_text(HTTPRouteRulesMatchesMethod::Trace) == "TRACE"@,
        method_text(HTTPRouteRulesMatchesMethod::Patch) == "PATCH"@,
        forall|m: HTTPRouteRulesMatches| #[trigger] match_rule_view(m).0
            == (match m.method { Some(x) => Some(method_text(x)), None => None::<Seq<char>> }),
{
}

} // verus!
