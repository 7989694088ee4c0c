//! Modes, services and focus of the interface.
use vstd::prelude::*;

verus! {

/// The editing mode of the application.
#[derive(Debug, Clone, Copy, PartialEq, Eq, Structural)]
pub enum Mode {
    Normal,
    Insert,
    Command,
}

impl Default for Mode {
    fn default() -> (m: Self)
        ensures
            m == Mode::Normal,
    {
        Mode::Normal
    }
}

/// The AWS services the browser shows.
#[derive(Debug, Clone, Copy, PartialEq, Eq, Structural)]
pub enum Service {
    S3,
    DynamoDB,
    Lambda,
    CloudWatch,
    SecretsManager,
}

/// The label shown for a service.
pub open spec fn service_label(s: Service) -> Seq<char> {
    match s {
        Service::S3 => "S3"@,
        Service::DynamoDB => "DynamoDB"@,
        Service::Lambda => "Lambda"@,
        Service::CloudWatch => "CloudWatch"@,
        Service::SecretsManager => "Secrets Manager"@,
    }
}

/// The services in the order the sidebar lists them.
pub open spec fn all_services() -> Seq<Service> {
    seq![Service::S3, Service::DynamoDB, Service::Lambda, Service::CloudWatch, Service::SecretsManager]
}

impl Service {
    /// Every service, in sidebar order.
    pub fn all() -> (v: Vec<Service>)
        ensures
            v@ == all_services(),
    {
        let mut v = Vec::new();
        v.push(Service::S3);
        v.push(Service::DynamoDB);
        v.push(Service::Lambda);
        v.push(Service::CloudWatch);
        v.push(Service::SecretsManager);
        proof {
            assert(v@ =~= all_services());
        }
        v
    }

    /// The label shown for the service.
    pub fn label(&self) -> (r: &'static str)
        ensures
            r@ == service_label(*self),
    {
        match self {
            Service::S3 => "S3",
            Service::DynamoDB => "DynamoDB",
            Service::Lambda => "Lambda",
            Service::CloudWatch => "CloudWatch",
            Service::SecretsManager => "Secrets Manager",
        }
    }
}

impl Default for Service {
    fn default() -> (s: Self)
        ensures
            s == Service::S3,
    {
        Service::S3
    }
}

/// Which pane receives keys.
#[derive(Debug, Clone, Copy, PartialEq, Eq, Structural)]
pub enum Focus {
    Sidebar,
    Main,
}

impl Default for Focus {
    fn default() -> (f: Self)
        ensures
            f == Focus::Sidebar,
    {
        Focus::Sidebar
    }
}

} // verus!
