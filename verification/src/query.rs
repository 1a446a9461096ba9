use vstd::prelude::*;
use crate::msg::QueryMsg;
use crate::responses::{AccountResponse, ConfigResponse, MetadataResponse};
use crate::state::{AddrId, State};

verus! {

/// The answer to one read-only query.
#[derive(Clone, Copy, Debug, PartialEq, Eq, Structural)]
pub enum QueryResult {
    Account(AccountResponse),
    Config(ConfigResponse),
    Metadata(MetadataResponse),
}

/// Account summary. A placeholder in the current scope: it answers the
/// empty summary for every account.
pub fn query_account(state: &State, _address: AddrId) -> (r: AccountResponse)
    ensures
        r == (AccountResponse {  }),
{
    AccountResponse {  }
}

/// Configuration summary. A placeholder in the current scope.
pub fn query_config(state: &State) -> (r: ConfigResponse)
    ensures
        r == (ConfigResponse {  }),
{
    ConfigResponse {  }
}

/// Static metadata. A placeholder in the current scope.
pub fn query_metadata(state: &State) -> (r: MetadataResponse)
    ensures
        r == (MetadataResponse {  }),
{
    MetadataResponse {  }
}

/// Dispatches one read-only query. Queries never mutate state.
pub fn query(state: &State, msg: QueryMsg) -> (r: QueryResult)
    ensures
        match msg {
            QueryMsg::Account { address } => r == QueryResult::Account(AccountResponse {  }),
            QueryMsg::Config {  } => r == QueryResult::Config(ConfigResponse {  }),
            QueryMsg::Metadata {  } => r == QueryResult::Metadata(MetadataResponse {  }),
        },
{
    match msg {
        QueryMsg::Account { address } => QueryResult::Account(query_account(state, address)),
        QueryMsg::Config {  } => QueryResult::Config(query_config(state)),
        QueryMsg::Metadata {  } => QueryResult::Metadata(query_metadata(state)),
    }
}

} // verus!
