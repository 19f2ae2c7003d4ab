//! The deploy-script naming convention.
//!
//! An application named `app` is deployed by the script `app.deploy`,
//! looked up by the surrounding resolver in its configured directory.
//! Building that file name is the pure part of resolution; checking that
//! the file exists stays with the resolver.

use vstd::prelude::*;
use vstd::string::StringExecFns;

verus! {

/// The file name of the deploy script for `application`.
pub fn deploy_script_name(application: &str) -> (r: String)
    ensures
        r@ == application@ + ".deploy"@,
{
    let mut name = application.to_owned();
    name.append(".deploy");
    name
}

} // verus!
