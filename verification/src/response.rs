//! What the hub asks the chain to do.

use vstd::prelude::*;
use vstd::string::*;

verus! {

/// An amount of one kind of token.
#[derive(Clone, Debug, PartialEq, Eq)]
pub struct Coin {
    pub denom: String,
    pub amount: u128,
}

/// A message to another module of the chain.
#[allow(inconsistent_fields)]
#[derive(Clone, Debug, PartialEq, Eq)]
pub enum CosmosMsg {
    /// Creates a contract, without funds.
    Instantiate { admin: Option<String>, code_id: u64, msg: Vec<u8>, label: String },
    /// Calls a contract, without funds.
    Execute { contract_addr: String, msg: Vec<u8> },
    UpdateAdmin { contract_addr: String, admin: String },
    Send { to_address: String, amount: Coin },
    Delegate { validator: String, amount: Coin },
    Undelegate { validator: String, amount: Coin },
    Redelegate { src_validator: String, dst_validator: String, amount: Coin },
    WithdrawDelegatorReward { validator: String },
}

/// On which outcome of a message the hub is called back.
#[derive(Clone, Copy, Debug, PartialEq, Eq, Structural)]
pub enum ReplyOn {
    Always,
    Error,
    Success,
    Never,
}

/// A message with what is to happen after it.
#[derive(Clone, Debug, PartialEq, Eq)]
pub struct SubMsg {
    pub id: u64,
    pub msg: CosmosMsg,
    pub reply_on: ReplyOn,
}

/// A key and a value for the event log.
#[derive(Clone, Debug, PartialEq, Eq)]
pub struct Attribute {
    pub key: String,
    pub value: String,
}

/// The messages, in the order of their execution, and the attributes of one call.
#[derive(Clone, Debug, PartialEq, Eq)]
pub struct Response {
    pub messages: Vec<SubMsg>,
    pub attributes: Vec<Attribute>,
}

/// A message whose outcome is not asked for.
pub open spec fn plain(msg: CosmosMsg) -> SubMsg {
    SubMsg { id: 0, msg, reply_on: ReplyOn::Never }
}

/// The keys and values of a list of attributes.
pub open spec fn texts(attributes: Seq<Attribute>) -> Seq<(Seq<char>, Seq<char>)> {
    attributes.map_values(|a: Attribute| (a.key@, a.value@))
}

impl Response {
    /// Nothing to do.
    pub open spec fn is_empty(&self) -> bool {
        self.messages@ == Seq::<SubMsg>::empty() && self.attributes@ == Seq::<Attribute>::empty()
    }

    /// Nothing to do.
    pub fn new() -> (r: Response)
        ensures
            r.is_empty(),
            texts(r.attributes@) == Seq::<(Seq<char>, Seq<char>)>::empty(),
    {
        let r = Response { messages: Vec::new(), attributes: Vec::new() };
        assert(texts(r.attributes@) =~= Seq::<(Seq<char>, Seq<char>)>::empty());
        r
    }

    /// Appends a message whose outcome is not asked for.
    pub fn add_message(&mut self, msg: CosmosMsg)
        ensures
            final(self).messages@ == old(self).messages@.push(plain(msg)),
            final(self).attributes == old(self).attributes,
    {
        self.messages.push(SubMsg { id: 0, msg, reply_on: ReplyOn::Never });
    }

    /// Appends a message.
    pub fn add_submessage(&mut self, msg: SubMsg)
        ensures
            final(self).messages@ == old(self).messages@.push(msg),
            final(self).attributes == old(self).attributes,
    {
        self.messages.push(msg);
    }

    /// Appends an attribute.
    pub fn add_attribute(&mut self, key: &str, value: &str)
        ensures
            final(self).messages == old(self).messages,
            texts(final(self).attributes@) == texts(old(self).attributes@).push((key@, value@)),
    {
        let ghost before = self.attributes@;
        self.attributes.push(
            Attribute { key: String::from_str(key), value: String::from_str(value) },
        );
        assert(texts(self.attributes@) =~= texts(before).push((key@, value@)));
    }
}

} // verus!
