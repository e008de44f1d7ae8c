//! The handlers that a request can be routed to.

use vstd::prelude::*;

verus! {

/// A handler of the registry, named after what it serves.
#[derive(Clone, Copy, Debug, PartialEq, Eq, Structural)]
pub enum Endpoint {
    /// Registers an account through the API.
    ApiAccountRegister,
    /// Logs an account in through the API.
    ApiAccountLogin,
    /// Tells what a token is, given the token itself.
    ApiTokenInfo,
    /// Issues a new token.
    ApiTokenGenerate,
    /// Revokes a token.
    ApiTokenRevoke,
    /// Tells what a token is, given its name.
    ApiTokenInfoByName,
    /// Lists the categories.
    ApiCategories,
    /// Searches the crates.
    ApiCratesSearch,
    /// Publishes a crate version.
    ApiCratesPublish,
    /// Suggests crate names.
    ApiCratesSuggest,
    /// Describes one crate.
    ApiCratesInfo,
    /// Lists the owners of a crate.
    ApiOwnersList,
    /// Adds owners to a crate.
    ApiOwnersAdd,
    /// Removes owners from a crate.
    ApiOwnersRemove,
    /// Yanks a crate version.
    ApiCratesYank,
    /// Takes a yank back.
    ApiCratesUnyank,
    /// Serves the tarball of a crate version.
    ApiCratesDownload,
    /// The front page.
    FrontIndex,
    /// The page of the logged-in author.
    FrontMe,
    /// The search page.
    FrontSearch,
    /// The page of the most downloaded crates.
    FrontMostDownloaded,
    /// The page of the crates updated last.
    FrontLastUpdated,
    /// The page of one crate.
    FrontCrate,
    /// The login form.
    FrontLoginForm,
    /// The login form, submitted.
    FrontLoginSubmit,
    /// Logs the author out.
    FrontLogout,
    /// The registration form.
    FrontRegisterForm,
    /// The registration form, submitted.
    FrontRegisterSubmit,
    /// The account management page.
    FrontManage,
    /// Changes the password.
    FrontManagePassword,
    /// Issues a token from the account management page.
    FrontManageTokens,
    /// Revokes a token from the account management page.
    FrontManageTokenRevoke,
    /// Serves a static asset.
    FrontAssets,
}

} // verus!
