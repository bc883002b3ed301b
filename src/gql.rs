//! What the GraphQL parser tells the library about a query document.
use vstd::prelude::*;
use graphql_parser::query::{parse_query, Definition, OperationDefinition};

verus! {

/// The kind of a document's first top-level definition.
#[derive(Debug, Clone, Copy, PartialEq, Eq, Structural)]
pub enum DefinitionKind {
    /// A `query` operation.
    Query,
    /// A `mutation` operation.
    Mutation,
    /// A `subscription` operation.
    Subscription,
    /// The anonymous query shorthand, a bare selection set.
    SelectionSet,
    /// A fragment definition.
    Fragment,
}

/// The kind of the first definition of the document `q`, if `q` parses.
pub uninterp spec fn first_definition_of(q: Seq<char>) -> Option<DefinitionKind>;

/// Relies on `graphql_parser::query::parse_query`: the kind of the first
/// definition of the parsed document, or none when parsing fails.
#[verifier::external_body]
pub(crate) fn first_definition(q: &str) -> (r: Option<DefinitionKind>)
    ensures
        r == first_definition_of(q@),
{
    match parse_query::<&str>(q) {
        Ok(doc) => match doc.definitions.first() {
            Some(Definition::Operation(OperationDefinition::Query(_))) => Some(DefinitionKind::Query),
            Some(Definition::Operation(OperationDefinition::Mutation(_))) => Some(DefinitionKind::Mutation),
            Some(Definition::Operation(OperationDefinition::Subscription(_))) => Some(DefinitionKind::Subscription),
            Some(Definition::Operation(OperationDefinition::SelectionSet(_))) => Some(DefinitionKind::SelectionSet),
            Some(Definition::Fragment(_)) => Some(DefinitionKind::Fragment),
            None => None,
        },
        Err(_) => None,
    }
}

} // verus!
