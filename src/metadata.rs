use vstd::prelude::*;

verus! {

/// Cluster-wide settings known to the broker.
#[derive(Clone, Debug)]
pub struct Cluster {
    pub cluster_name: String,
}

impl Cluster {
    pub fn new() -> (r: Cluster)
        ensures
            r.cluster_name@ == Seq::<char>::empty(),
    {
        Cluster { cluster_name: String::new() }
    }
}

/// A user account.
#[derive(Clone, Debug)]
pub struct User {
    pub username: String,
    pub password: String,
    pub is_superuser: bool,
}

/// State of a client's session.
#[derive(Clone, Debug)]
pub struct Session {
    pub client_id: String,
    pub session_expiry: u64,
    pub is_contain_last_will: bool,
}

/// A topic known to the broker.
#[derive(Clone, Debug)]
pub struct Topic {
    pub topic_id: String,
    pub topic_name: String,
}

impl Topic {
    /// A field-by-field copy.
    pub fn duplicate(&self) -> (r: Topic)
        ensures
            r == *self,
    {
        Topic { topic_id: self.topic_id.clone(), topic_name: self.topic_name.clone() }
    }
}

/// A client that subscribes to topics.
#[derive(Clone, Debug)]
pub struct Subscriber {
    pub client_id: String,
}

} // verus!
