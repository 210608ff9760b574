//! Installing or upgrading a component: what to look up, and the steps to
//! take for what was found.

use vstd::prelude::*;

verus! {

/// What the lookup of a component's package-hash name found.
#[derive(Clone, Copy, Debug, PartialEq, Eq, Structural)]
pub enum Found {
    /// Nothing is registered under the name: a first deployment.
    Missing,
    /// A hash is registered: the package exists and is reused.
    Hash,
    /// Something that is no hash is registered.
    Other,
}

/// The component that is installed.
#[derive(Clone, Copy, Debug, PartialEq, Eq, Structural)]
pub enum Component {
    /// The standalone broker.
    Share,
    /// The resource that uses a standalone broker.
    Locked,
    /// The resource with its integrated broker.
    LockedWithShare,
}

/// What a name is registered for.
#[derive(Clone, Copy, Debug, PartialEq, Eq, Structural)]
pub enum Slot {
    PackageHash,
    WrappedPackageHash,
    AccessToken,
    ContractHash,
    WrappedContractHash,
}

/// One step of an installation, carried out by the host.
#[derive(Debug)]
pub enum Step {
    /// Create a new package; yields its hash and its access token.
    CreatePackage,
    /// Register a value under a name.
    PutKey { name: String, slot: Slot },
    /// Mint the admission group and retain the authority's token; with a
    /// standalone broker, also store each principal's token there.
    PrepareAccess,
    /// Add the component's entry points as a new version of the package;
    /// yields the contract hash.
    AddVersion,
    /// Append the batch of tokens at the component's own broker.
    Distribute,
}

pub enum StepView {
    CreatePackage,
    PutKey { name: Seq<char>, slot: Slot },
    PrepareAccess,
    AddVersion,
    Distribute,
}

impl View for Step {
    type V = StepView;

    open spec fn view(&self) -> StepView {
        match self {
            Step::CreatePackage => StepView::CreatePackage,
            Step::PutKey { name, slot } => StepView::PutKey { name: name@, slot: *slot },
            Step::PrepareAccess => StepView::PrepareAccess,
            Step::AddVersion => StepView::AddVersion,
            Step::Distribute => StepView::Distribute,
        }
    }
}

/// The views of a list of steps, in order.
pub open spec fn step_views(steps: Seq<Step>) -> Seq<StepView> {
    steps.map_values(|s: Step| s@)
}

/// The name under which a component's package hash is registered.
pub open spec fn package_hash_key(name: Seq<char>) -> Seq<char> {
    name + "-package-hash"@
}

/// The name under which the package hash is registered in wrapped form.
pub open spec fn wrapped_package_hash_key(name: Seq<char>) -> Seq<char> {
    name + "-wrapped-package-hash"@
}

/// The name under which the package's access token is registered.
pub open spec fn access_token_key(name: Seq<char>) -> Seq<char> {
    name + "-access-uref"@
}

/// The name under which the contract hash is registered in wrapped form.
pub open spec fn wrapped_key(name: Seq<char>) -> Seq<char> {
    name + "-wrapped"@
}

/// The steps that register a new package.
pub open spec fn registration(name: Seq<char>) -> Seq<StepView> {
    seq![
        StepView::CreatePackage,
        StepView::PutKey { name: package_hash_key(name), slot: Slot::PackageHash },
        StepView::PutKey { name: wrapped_package_hash_key(name), slot: Slot::WrappedPackageHash },
        StepView::PutKey { name: access_token_key(name), slot: Slot::AccessToken },
    ]
}

/// The steps that deploy a component into its package.
pub open spec fn deployment(component: Component) -> Seq<StepView> {
    match component {
        Component::Share => seq![StepView::AddVersion],
        Component::Locked => seq![StepView::PrepareAccess, StepView::AddVersion],
        Component::LockedWithShare => seq![
            StepView::AddVersion,
            StepView::PrepareAccess,
            StepView::Distribute,
        ],
    }
}

/// The steps that register the new version.
pub open spec fn publication(name: Seq<char>) -> Seq<StepView> {
    seq![
        StepView::PutKey { name: name, slot: Slot::ContractHash },
        StepView::PutKey { name: wrapped_key(name), slot: Slot::WrappedContractHash },
    ]
}

/// The whole installation: a package is created and registered exactly
/// when none was found; then the component is deployed and the version
/// registered. Nothing is planned over a registration that is no hash.
pub open spec fn install_plan(name: Seq<char>, found: Found, component: Component) -> Option<
    Seq<StepView>,
> {
    match found {
        Found::Missing => Some(registration(name) + deployment(component) + publication(name)),
        Found::Hash => Some(deployment(component) + publication(name)),
        Found::Other => None,
    }
}

/// Joins a component's name and a suffix.
fn suffixed(name: &str, suffix: &str) -> (key: String)
    ensures
        key@ == name@ + suffix@,
{
    let mut key = String::from_str(name);
    key.append(suffix);
    key
}

/// The name to look up before an installation.
pub fn package_hash_name(name: &str) -> (key: String)
    ensures
        key@ == package_hash_key(name@),
{
    suffixed(name, "-package-hash")
}

/// Plans the installation or upgrade of `component` under `name`, given
/// what the lookup of [`package_hash_name`] found.
pub fn plan(name: &str, found: Found, component: Component) -> (steps: Option<Vec<Step>>)
    ensures
        steps is Some <==> found != Found::Other,
        steps matches Some(s) ==> Some(step_views(s@)) == install_plan(name@, found, component),
{
    let mut steps: Vec<Step> = Vec::new();
    match found {
        Found::Other => {
            return None;
        },
        Found::Hash => {},
        Found::Missing => {
            steps.push(Step::CreatePackage);
            steps.push(Step::PutKey { name: package_hash_name(name), slot: Slot::PackageHash });
            steps.push(
                Step::PutKey {
                    name: suffixed(name, "-wrapped-package-hash"),
                    slot: Slot::WrappedPackageHash,
                },
            );
            steps.push(
                Step::PutKey { name: suffixed(name, "-access-uref"), slot: Slot::AccessToken },
            );
        },
    }
    assert(found == Found::Missing ==> step_views(steps@) =~= registration(name@));
    assert(found == Found::Hash ==> step_views(steps@) =~= Seq::<StepView>::empty());
    let ghost prefix = step_views(steps@);
    match component {
        Component::Share => {
            steps.push(Step::AddVersion);
        },
        Component::Locked => {
            steps.push(Step::PrepareAccess);
            steps.push(Step::AddVersion);
        },
        Component::LockedWithShare => {
            steps.push(Step::AddVersion);
            steps.push(Step::PrepareAccess);
            steps.push(Step::Distribute);
        },
    }
    assert(step_views(steps@) =~= prefix + deployment(component));
    steps.push(Step::PutKey { name: String::from_str(name), slot: Slot::ContractHash });
    steps.push(
        Step::PutKey { name: suffixed(name, "-wrapped"), slot: Slot::WrappedContractHash },
    );
    assert(step_views(steps@) =~= prefix + deployment(component) + publication(name@));
    Some(steps)
}

} // verus!
