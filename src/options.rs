//! Execution options attached to outgoing messages for a peer.
use vstd::prelude::*;
use crate::errors::MyOAppError;
use crate::field_io::push_slice;

verus! {

/// The options a peer always requires, for plain sends and for sends with a call.
pub struct EnforcedOptions {
    pub send: Vec<u8>,
    pub send_and_call: Vec<u8>,
}

impl EnforcedOptions {
    /// The enforced send options, then `extra_options` if given, then
    /// `user_options`.
    pub fn combine_options(&self, extra_options: &Option<Vec<u8>>, user_options: &[u8]) -> (r:
        Result<Vec<u8>, MyOAppError>)
        ensures
            r matches Ok(v) && v@ == self.send@ + match extra_options {
                Some(e) => e@,
                None => Seq::<u8>::empty(),
            } + user_options@,
    {
        let mut combined: Vec<u8> = Vec::new();
        push_slice(&mut combined, self.send.as_slice());
        match extra_options {
            Some(extra) => push_slice(&mut combined, extra.as_slice()),
            None => {},
        }
        push_slice(&mut combined, user_options);
        assert(combined@ =~= self.send@ + match extra_options {
            Some(e) => e@,
            None => Seq::<u8>::empty(),
        } + user_options@);
        Ok(combined)
    }
}

} // verus!
