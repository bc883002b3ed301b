//! Classification of a request body: GraphQL request, JSON value or text,
//! and the form in which a body is sent on.
use vstd::prelude::*;
use crate::gql::{first_definition, first_definition_of, DefinitionKind};
use crate::json::{
    canonical_json, json_members, json_members_of, json_quote, json_quoted_of, json_string,
    json_string_of, json_text_of, members_view, opt_view,
};
use crate::text::same_text;

verus! {

/// Whether a GraphQL operation reads or changes data.
#[derive(Debug, Clone, Copy, PartialEq, Eq, Structural)]
pub enum GQLType {
    Query,
    Mutation,
}

/// A GraphQL request envelope. `variables` is the compact JSON text of the
/// variables value (`null` when the envelope has none).
#[derive(Debug, Clone)]
pub struct GQLRequest {
    pub query: String,
    pub operation_name: Option<String>,
    pub variables: String,
}

/// A classified request body. `JSON` carries the compact text of the value.
#[derive(Debug, Clone)]
pub enum RequestBody {
    Unknown,
    JSON(String),
    Text(String),
    GQL(GQLRequest, GQLType),
}

/// The abstract content of a body.
pub enum BodyModel {
    Unknown,
    Json(Seq<char>),
    Text(Seq<char>),
    Gql(GqlModel, GQLType),
}

/// Query text, operation name and variables text of a GraphQL request.
pub type GqlModel = (Seq<char>, Option<Seq<char>>, Seq<char>);

impl GQLRequest {
    pub open spec fn model(&self) -> GqlModel {
        (self.query@, opt_view(self.operation_name), self.variables@)
    }
}

impl View for RequestBody {
    type V = BodyModel;

    open spec fn view(&self) -> BodyModel {
        match self {
            RequestBody::Unknown => BodyModel::Unknown,
            RequestBody::JSON(t) => BodyModel::Json(t@),
            RequestBody::Text(t) => BodyModel::Text(t@),
            RequestBody::GQL(g, k) => BodyModel::Gql(g.model(), *k),
        }
    }
}

/// The value of the first member named `key`.
pub open spec fn member(ms: Seq<(Seq<char>, Seq<char>)>, key: Seq<char>) -> Option<Seq<char>>
    decreases ms.len(),
{
    if ms.len() == 0 {
        None
    } else if ms[0].0 == key {
        Some(ms[0].1)
    } else {
        member(ms.drop_first(), key)
    }
}

/// The operation name of an envelope: absent or `null` gives none, a JSON
/// string gives that string, anything else makes the envelope invalid.
pub open spec fn operation_name_of(ms: Seq<(Seq<char>, Seq<char>)>) -> Option<Option<Seq<char>>> {
    match member(ms, "operationName"@) {
        None => Some(None),
        Some(t) => if t == "null"@ {
            Some(None)
        } else {
            match json_string_of(t) {
                Some(n) => Some(Some(n)),
                None => None,
            }
        },
    }
}

/// The GraphQL envelope `{query, operationName?, variables?}` that `s` holds:
/// a JSON object whose `query` member is a string.
pub open spec fn envelope_of(s: Seq<char>) -> Option<GqlModel> {
    match json_members_of(s) {
        None => None,
        Some(ms) => match member(ms, "query"@) {
            None => None,
            Some(qt) => match json_string_of(qt) {
                None => None,
                Some(q) => match operation_name_of(ms) {
                    None => None,
                    Some(n) => Some(
                        (
                            q,
                            n,
                            match member(ms, "variables"@) {
                                Some(v) => v,
                                None => "null"@,
                            },
                        ),
                    ),
                },
            },
        },
    }
}

/// The operation kind given by a document's first definition: a query
/// (named or shorthand) or a mutation; anything else is no GraphQL request.
pub open spec fn operation_kind(d: Option<DefinitionKind>) -> Option<GQLType> {
    match d {
        Some(DefinitionKind::Query) => Some(GQLType::Query),
        Some(DefinitionKind::SelectionSet) => Some(GQLType::Query),
        Some(DefinitionKind::Mutation) => Some(GQLType::Mutation),
        _ => None,
    }
}

/// The GraphQL request that the body text `s` holds, with its kind.
pub open spec fn gql_of(s: Seq<char>) -> Option<(GqlModel, GQLType)> {
    match envelope_of(s) {
        None => None,
        Some(g) => match operation_kind(first_definition_of(g.0)) {
            Some(k) => Some((g, k)),
            None => None,
        },
    }
}

/// How a present body is classified: GraphQL first, then JSON, else text.
pub open spec fn classify(s: Seq<char>) -> BodyModel {
    match gql_of(s) {
        Some((g, k)) => BodyModel::Gql(g, k),
        None => match json_text_of(s) {
            Some(t) => BodyModel::Json(t),
            None => BodyModel::Text(s),
        },
    }
}

/// The text sent upstream for a body; none for an unknown body.
pub open spec fn wire_of(b: BodyModel) -> Option<Seq<char>> {
    match b {
        BodyModel::Unknown => None,
        BodyModel::Text(t) => Some(t),
        BodyModel::Json(t) => Some(t),
        BodyModel::Gql(g, _) => Some(
            envelope_text(
                json_quoted_of(g.0),
                match g.1 {
                    None => "null"@,
                    Some(n) => json_quoted_of(n),
                },
                g.2,
            ),
        ),
    }
}

/// The JSON envelope text from the texts of its three members.
pub open spec fn envelope_text(q: Seq<char>, n: Seq<char>, v: Seq<char>) -> Seq<char> {
    "{\"query\":"@ + q + ",\"operationName\":"@ + n + ",\"variables\":"@ + v + "}"@
}

pub(crate) fn find_member(ms: &Vec<(String, String)>, key: &str) -> (r: Option<String>)
    ensures
        opt_view(r) == member(ms@.map_values(|p: (String, String)| (p.0@, p.1@)), key@),
{
    let ghost all = ms@.map_values(|p: (String, String)| (p.0@, p.1@));
    let mut i: usize = 0;
    assert(all.subrange(0, all.len() as int) =~= all);
    while i < ms.len()
        invariant
            i <= ms@.len(),
            all == ms@.map_values(|p: (String, String)| (p.0@, p.1@)),
            member(all, key@) == member(all.subrange(i as int, all.len() as int), key@),
        decreases ms@.len() - i,
    {
        let ghost rest = all.subrange(i as int, all.len() as int);
        assert(rest.drop_first() =~= all.subrange(i + 1, all.len() as int));
        assert(rest[0] == (ms@[i as int].0@, ms@[i as int].1@));
        if same_text(ms[i].0.as_str(), key) {
            return Some(ms[i].1.clone());
        }
        i = i + 1;
    }
    None
}

impl RequestBody {
    /// Classifies a body; none only when no body was given.
    pub fn new(content: &Option<String>) -> (r: Option<RequestBody>)
        ensures
            content is None <==> r is None,
            content matches Some(c) ==> r matches Some(b) && b@ == classify(c@),
    {
        match content {
            None => None,
            Some(c) => match RequestBody::check_for_gql(c.as_str()) {
                Some(b) => Some(b),
                None => match RequestBody::check_for_json(c.as_str()) {
                    Some(b) => Some(b),
                    None => Some(RequestBody::check_for_text(c.as_str())),
                },
            },
        }
    }

    /// The text to send upstream; none for an unknown body.
    pub fn to_string(&self) -> (r: Option<String>)
        ensures
            opt_view(r) == wire_of(self@),
    {
        match self {
            RequestBody::Unknown => None,
            RequestBody::Text(t) => Some(t.clone()),
            RequestBody::JSON(t) => Some(t.clone()),
            RequestBody::GQL(g, _) => {
                let q = json_quote(g.query.as_str());
                let n = match &g.operation_name {
                    None => "null".to_string(),
                    Some(name) => json_quote(name.as_str()),
                };
                let mut out = "{\"query\":".to_string();
                out.append(q.as_str());
                out.append(",\"operationName\":");
                out.append(n.as_str());
                out.append(",\"variables\":");
                out.append(g.variables.as_str());
                out.append("}");
                assert(out@ =~= envelope_text(q@, n@, g.variables@));
                Some(out)
            },
        }
    }

    /// The GraphQL request that `content` holds, if it is one.
    pub fn check_for_gql(content: &str) -> (r: Option<RequestBody>)
        ensures
            gql_of(content@) matches Some((g, k)) ==> r matches Some(b) && b@ == BodyModel::Gql(
                g,
                k,
            ),
            gql_of(content@) is None ==> r is None,
    {
        let ms = match json_members(content) {
            Some(ms) => ms,
            None => {
                return None;
            },
        };
        let ghost all = ms@.map_values(|p: (String, String)| (p.0@, p.1@));
        assert(members_view(Some(ms)) == Some(all));
        let query = match find_member(&ms, "query") {
            Some(qt) => match json_string(qt.as_str()) {
                Some(q) => q,
                None => {
                    return None;
                },
            },
            None => {
                return None;
            },
        };
        let operation_name = match find_member(&ms, "operationName") {
            None => None,
            Some(t) => if same_text(t.as_str(), "null") {
                None
            } else {
                match json_string(t.as_str()) {
                    Some(n) => Some(n),
                    None => {
                        return None;
                    },
                }
            },
        };
        let variables = match find_member(&ms, "variables") {
            Some(v) => v,
            None => "null".to_string(),
        };
        let kind = match first_definition(query.as_str()) {
            Some(DefinitionKind::Query) => GQLType::Query,
            Some(DefinitionKind::SelectionSet) => GQLType::Query,
            Some(DefinitionKind::Mutation) => GQLType::Mutation,
            _ => {
                return None;
            },
        };
        let g = GQLRequest { query, operation_name, variables };
        assert(envelope_of(content@) == Some(g.model()));
        Some(RequestBody::GQL(g, kind))
    }

    /// The JSON value that `content` holds, if it is JSON.
    pub fn check_for_json(content: &str) -> (r: Option<RequestBody>)
        ensures
            json_text_of(content@) matches Some(t) ==> r matches Some(b) && b@ == BodyModel::Json(t),
            json_text_of(content@) is None ==> r is None,
    {
        match canonical_json(content) {
            Some(t) => Some(RequestBody::JSON(t)),
            None => None,
        }
    }

    /// The body as plain text.
    pub fn check_for_text(content: &str) -> (r: RequestBody)
        ensures
            r@ == BodyModel::Text(content@),
    {
        RequestBody::Text(content.to_string())
    }
}

} // verus!
