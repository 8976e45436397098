//! Where a message goes: by which channel, from whom, to whom, with what.

use vstd::prelude::*;
use crate::Id;

verus! {

#[derive(Clone, Copy, Debug, PartialEq, Eq, Structural)]
pub enum Environment {
    Development,
    Production,
    Staging,
    Test,
}

#[derive(Clone, Copy, Debug, PartialEq, Eq, Structural)]
pub enum CommunicationType {
    Email,
    EmailTemplate,
    Sms,
    Push,
    Webhook,
}

/// One or more addresses: of mail, of phones, of devices, of hooks.
#[derive(Debug, PartialEq, Eq)]
pub struct CommAddress {
    pub addresses: Vec<String>,
}

/// A message to deliver.
#[derive(Debug, PartialEq, Eq)]
pub struct Communication {
    pub comm_type: CommunicationType,
    pub title: String,
    pub body: Option<String>,
    pub source: Option<CommAddress>,
    pub destinations: CommAddress,
    pub template_id: Option<String>,
    /// For each recipient of a templated mail, the values to fill in.
    pub template_data: Option<Vec<Vec<(String, String)>>>,
    pub categories: Option<Vec<String>>,
    pub extra_data: Option<Vec<(String, String)>>,
}

/// What to do with a message.
#[allow(inconsistent_fields)]
#[derive(Debug, PartialEq, Eq)]
pub enum Delivery {
    /// Nothing: messages are switched off while testing.
    Disabled,
    /// Nothing but a note in the log: messages to the outside are blocked.
    Blocked(Communication),
    Email {
        source: String,
        destinations: Vec<String>,
        title: String,
        body: Option<String>,
        categories: Option<Vec<String>>,
        extra_data: Option<Vec<(String, String)>>,
    },
    EmailTemplate {
        source: String,
        destinations: Vec<String>,
        template_id: String,
        template_data: Vec<Vec<(String, String)>>,
        categories: Option<Vec<String>>,
        extra_data: Option<Vec<(String, String)>>,
    },
    Sms { source: String, destinations: Vec<String>, body: String },
    Push { destinations: Vec<String>, body: String },
    Webhook { destinations: Vec<String>, body: String, main_table_id: Option<Id> },
}

impl Communication {
    /// The first address that the message comes from, where it has one.
    pub open spec fn first_source(self) -> Option<String> {
        match self.source {
            Some(source) => if source.addresses@.len() > 0 {
                Some(source.addresses@[0])
            } else {
                None
            },
            None => None,
        }
    }

    /// The text of a message that has no subject line: its body, or its title
    /// where it has no body.
    pub open spec fn text(self) -> String {
        match self.body {
            Some(body) => body,
            None => self.title,
        }
    }

    /// Whether the message has what its channel needs: mail and text messages
    /// an address to come from, templated mail also a template and its data.
    pub open spec fn spec_is_deliverable(&self) -> bool {
        match self.comm_type {
            CommunicationType::Email => self.first_source() is Some,
            CommunicationType::EmailTemplate => self.first_source() is Some && self.template_id is Some
                && self.template_data is Some,
            CommunicationType::Sms => self.first_source() is Some,
            CommunicationType::Push => true,
            CommunicationType::Webhook => true,
        }
    }

    /// What to do with this message when it goes out by its channel.
    pub open spec fn routed(self, main_table_id: Option<Id>) -> Delivery {
        match self.comm_type {
            CommunicationType::Email => Delivery::Email {
                source: self.first_source()->0,
                destinations: self.destinations.addresses,
                title: self.title,
                body: self.body,
                categories: self.categories,
                extra_data: self.extra_data,
            },
            CommunicationType::EmailTemplate => Delivery::EmailTemplate {
                source: self.first_source()->0,
                destinations: self.destinations.addresses,
                template_id: self.template_id->0,
                template_data: self.template_data->0,
                categories: self.categories,
                extra_data: self.extra_data,
            },
            CommunicationType::Sms => Delivery::Sms {
                source: self.first_source()->0,
                destinations: self.destinations.addresses,
                body: self.text(),
            },
            CommunicationType::Push => Delivery::Push {
                destinations: self.destinations.addresses,
                body: self.text(),
            },
            CommunicationType::Webhook => Delivery::Webhook {
                destinations: self.destinations.addresses,
                body: self.text(),
                main_table_id,
            },
        }
    }

    /// What to do with this message: nothing while testing, only a note in
    /// the log while messages to the outside are blocked, and else what its
    /// channel asks for.
    pub open spec fn delivery(self, environment: Environment, block_external_comms: bool, main_table_id: Option<Id>) -> Delivery {
        if environment == Environment::Test {
            Delivery::Disabled
        } else if block_external_comms {
            Delivery::Blocked(self)
        } else {
            self.routed(main_table_id)
        }
    }

    #[verifier::when_used_as_spec(spec_is_deliverable)]
    pub fn is_deliverable(&self) -> (r: bool)
        ensures
            r == self.spec_is_deliverable(),
    {
        let has_source = match &self.source {
            Some(source) => source.addresses.len() > 0,
            None => false,
        };
        match self.comm_type {
            CommunicationType::Email => has_source,
            CommunicationType::EmailTemplate => has_source && self.template_id.is_some()
                && self.template_data.is_some(),
            CommunicationType::Sms => has_source,
            CommunicationType::Push => true,
            CommunicationType::Webhook => true,
        }
    }
}

/// Decides what to do with `communication`: see [`Communication::delivery`].
/// `main_table_id` is the row that the message is about, which a hook is told.
///
/// A message that is to go out must have what its channel needs.
pub fn send_async(
    communication: Communication,
    environment: Environment,
    block_external_comms: bool,
    main_table_id: Option<Id>,
) -> (r: Delivery)
    requires
        environment != Environment::Test && !block_external_comms ==> communication.is_deliverable(),
    ensures
        r == communication.delivery(environment, block_external_comms, main_table_id),
{
    if environment == Environment::Test {
        return Delivery::Disabled;
    }
    if block_external_comms {
        return Delivery::Blocked(communication);
    }
    let Communication {
        comm_type,
        title,
        body,
        source,
        destinations,
        template_id,
        template_data,
        categories,
        extra_data,
    } = communication;
    let destinations = destinations.addresses;
    match comm_type {
        CommunicationType::Email => Delivery::Email {
            source: first_address(source),
            destinations,
            title,
            body,
            categories,
            extra_data,
        },
        CommunicationType::EmailTemplate => Delivery::EmailTemplate {
            source: first_address(source),
            destinations,
            template_id: template_id.unwrap(),
            template_data: template_data.unwrap(),
            categories,
            extra_data,
        },
        CommunicationType::Sms => Delivery::Sms {
            source: first_address(source),
            destinations,
            body: match body {
                Some(body) => body,
                None => title,
            },
        },
        CommunicationType::Push => Delivery::Push {
            destinations,
            body: match body {
                Some(body) => body,
                None => title,
            },
        },
        CommunicationType::Webhook => Delivery::Webhook {
            destinations,
            body: match body {
                Some(body) => body,
                None => title,
            },
            main_table_id,
        },
    }
}

fn first_address(source: Option<CommAddress>) -> (r: String)
    requires
        source matches Some(s) && s.addresses@.len() > 0,
    ensures
        r == source->0.addresses@[0],
{
    let source = source.unwrap();
    source.addresses[0].clone()
}

} // verus!
