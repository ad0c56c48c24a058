use std::collections::HashMap;
use vstd::prelude::*;
use crate::keyed::StrMap;
use crate::metadata::{Cluster, Session, Subscriber, Topic, User};

verus! {

broadcast use vstd::std_specs::hash::group_hash_axioms;

/// What a metadata change does.
#[derive(Clone, Copy, Debug, PartialEq, Eq, Structural)]
pub enum MetadataCacheAction {
    Save,
    Del,
}

/// What a metadata change is about.
#[derive(Clone, Copy, Debug, PartialEq, Eq, Structural)]
pub enum MetadataCacheType {
    Cluster,
    User,
    Topic,
}

/// A metadata change as broadcast to brokers; `value` holds the changed record.
#[derive(Clone, Debug)]
pub struct MetadataChangeData {
    pub action: MetadataCacheAction,
    pub data_type: MetadataCacheType,
    pub value: String,
}

/// The broker's in-memory view of users, sessions, topics and connections.
pub struct MetadataCache {
    pub cluster_info: Cluster,
    pub user_info: StrMap<User>,
    pub session_info: StrMap<Session>,
    pub topic_info: StrMap<Topic>,
    pub subscriber_info: StrMap<Subscriber>,
    pub connect_id_info: HashMap<u64, String>,
    pub login_info: HashMap<u64, bool>,
}

impl MetadataCache {
    pub open spec fn wf(&self) -> bool {
        &&& self.user_info.wf()
        &&& self.session_info.wf()
        &&& self.topic_info.wf()
        &&& self.subscriber_info.wf()
    }

    /// Whether `self` keeps the fields of `o` that a `true` flag names; the cluster and
    /// the subscribers are kept in any case.
    pub open spec fn keeps(
        &self,
        o: &MetadataCache,
        user: bool,
        session: bool,
        topic: bool,
        connect: bool,
        login: bool,
    ) -> bool {
        &&& self.cluster_info == o.cluster_info
        &&& self.subscriber_info@ == o.subscriber_info@
        &&& user ==> self.user_info@ == o.user_info@
        &&& session ==> self.session_info@ == o.session_info@
        &&& topic ==> self.topic_info@ == o.topic_info@
        &&& connect ==> self.connect_id_info@ == o.connect_id_info@
        &&& login ==> self.login_info@ == o.login_info@
    }

    pub fn new() -> (r: Self)
        ensures
            r.wf(),
            r.cluster_info.cluster_name@ == Seq::<char>::empty(),
            r.user_info@ == Map::<Seq<char>, User>::empty(),
            r.session_info@ == Map::<Seq<char>, Session>::empty(),
            r.topic_info@ == Map::<Seq<char>, Topic>::empty(),
            r.subscriber_info@ == Map::<Seq<char>, Subscriber>::empty(),
            r.connect_id_info@ == Map::<u64, String>::empty(),
            r.login_info@ == Map::<u64, bool>::empty(),
    {
        MetadataCache {
            user_info: StrMap::new(),
            session_info: StrMap::new(),
            cluster_info: Cluster::new(),
            topic_info: StrMap::new(),
            subscriber_info: StrMap::new(),
            connect_id_info: HashMap::new(),
            login_info: HashMap::new(),
        }
    }

    /// Adds or replaces a user, keyed by its name.
    pub fn set_user(&mut self, user: User)
        requires
            old(self).wf(),
        ensures
            final(self).wf(),
            final(self).keeps(old(self), false, true, true, true, true),
            final(self).user_info@ == old(self).user_info@.insert(user.username@, user),
    {
        let name = user.username.clone();
        self.user_info.insert(name, user);
    }

    /// Removes the user of that name.
    pub fn del_user(&mut self, user: &User)
        requires
            old(self).wf(),
        ensures
            final(self).wf(),
            final(self).keeps(old(self), false, true, true, true, true),
            final(self).user_info@ == old(self).user_info@.remove(user.username@),
    {
        self.user_info.remove(&user.username);
    }

    /// Applies a user change whose record has been decoded into `user`; changes of
    /// other kinds leave the cache as it is.
    pub fn apply_user_change(
        &mut self,
        action: MetadataCacheAction,
        data_type: MetadataCacheType,
        user: User,
    )
        requires
            old(self).wf(),
        ensures
            final(self).wf(),
            final(self).keeps(old(self), false, true, true, true, true),
            data_type == MetadataCacheType::User && action == MetadataCacheAction::Save
                ==> final(self).user_info@ == old(self).user_info@.insert(user.username@, user),
            data_type == MetadataCacheType::User && action == MetadataCacheAction::Del
                ==> final(self).user_info@ == old(self).user_info@.remove(user.username@),
            data_type != MetadataCacheType::User ==> final(self).user_info@ == old(self).user_info@,
    {
        match data_type {
            MetadataCacheType::User => match action {
                MetadataCacheAction::Save => self.set_user(user),
                MetadataCacheAction::Del => self.del_user(&user),
            },
            MetadataCacheType::Topic => {},
            MetadataCacheType::Cluster => {},
        }
    }

    pub fn set_session(&mut self, client_id: String, session: Session)
        requires
            old(self).wf(),
        ensures
            final(self).wf(),
            final(self).keeps(old(self), true, false, true, true, true),
            final(self).session_info@ == old(self).session_info@.insert(client_id@, session),
    {
        self.session_info.insert(client_id, session);
    }

    pub fn set_client_id(&mut self, connect_id: u64, client_id: String)
        requires
            old(self).wf(),
        ensures
            final(self).wf(),
            final(self).keeps(old(self), true, true, true, false, true),
            final(self).connect_id_info@ == old(self).connect_id_info@.insert(connect_id, client_id),
    {
        self.connect_id_info.insert(connect_id, client_id);
    }

    pub fn set_topic(&mut self, topic_name: &String, topic: &Topic)
        requires
            old(self).wf(),
        ensures
            final(self).wf(),
            final(self).keeps(old(self), true, true, false, true, true),
            final(self).topic_info@ == old(self).topic_info@.insert(topic_name@, *topic),
    {
        self.topic_info.insert(topic_name.clone(), topic.duplicate());
    }

    pub fn login_success(&mut self, connect_id: u64)
        requires
            old(self).wf(),
        ensures
            final(self).wf(),
            final(self).keeps(old(self), true, true, true, true, false),
            final(self).login_info@ == old(self).login_info@.insert(connect_id, true),
    {
        self.login_info.insert(connect_id, true);
    }

    pub fn is_login(&self, connect_id: u64) -> (r: bool)
        ensures
            r == self.login_info@.contains_key(connect_id),
    {
        self.login_info.contains_key(&connect_id)
    }

    pub fn topic_exists(&self, topic: &String) -> (r: bool)
        requires
            self.wf(),
        ensures
            r == self.topic_info@.contains_key(topic@),
    {
        self.topic_info.contains_key(topic)
    }

    /// The client on connection `connect_id`, if known.
    pub fn get_client_id(&self, connect_id: u64) -> (r: Option<String>)
        ensures
            match r {
                Some(c) => self.connect_id_info@.contains_key(connect_id) && c
                    == self.connect_id_info@[connect_id],
                None => !self.connect_id_info@.contains_key(connect_id),
            },
    {
        match self.connect_id_info.get(&connect_id) {
            Some(c) => Some(c.clone()),
            None => None,
        }
    }

    /// Forgets a closed connection: its session, its login and its client binding.
    /// An unknown connection changes nothing.
    pub fn remove_connect_id(&mut self, connect_id: u64)
        requires
            old(self).wf(),
        ensures
            final(self).wf(),
            final(self).keeps(old(self), true, false, true, false, false),
            old(self).connect_id_info@.contains_key(connect_id) ==> {
                let c = old(self).connect_id_info@[connect_id];
                &&& final(self).session_info@ == old(self).session_info@.remove(c@)
                &&& final(self).login_info@ == old(self).login_info@.remove(connect_id)
                &&& final(self).connect_id_info@ == old(self).connect_id_info@.remove(connect_id)
            },
            !old(self).connect_id_info@.contains_key(connect_id) ==> final(self).session_info@ == old(
                self,
            ).session_info@ && final(self).login_info@ == old(self).login_info@
                && final(self).connect_id_info@ == old(self).connect_id_info@,
    {
        if let Some(client_id) = self.get_client_id(connect_id) {
            self.session_info.remove(&client_id);
            self.login_info.remove(&connect_id);
            self.connect_id_info.remove(&connect_id);
        }
    }
}

} // verus!
