//! The records the bot keeps in its PocketBase database, and the addresses of
//! the collections that hold them.
use vstd::prelude::*;
use crate::text::{append_str, chars_of, string_of, strip_trailing_char, strip_trailing_char_chars};

verus! {

/// A welcome message whose reactions give roles.
pub struct WelcomeMessageRecord {
    pub id: String,
    pub guild_id: String,
    pub message_id: String,
    pub channel_id: String,
    /// The role ids to give, joined with commas.
    pub roles: String,
    /// `true` when a CAPTCHA must be solved first.
    pub captcha: String,
    pub captcha_type: String,
    pub captcha_len: Option<u32>,
}

/// The value of a `WelcomeMessageRecord`.
pub struct WelcomeRecordView {
    pub id: Seq<char>,
    pub guild_id: Seq<char>,
    pub message_id: Seq<char>,
    pub channel_id: Seq<char>,
    pub roles: Seq<char>,
    pub captcha: Seq<char>,
    pub captcha_type: Seq<char>,
    pub captcha_len: Option<u32>,
}

impl View for WelcomeMessageRecord {
    type V = WelcomeRecordView;

    open spec fn view(&self) -> WelcomeRecordView {
        WelcomeRecordView {
            id: self.id@,
            guild_id: self.guild_id@,
            message_id: self.message_id@,
            channel_id: self.channel_id@,
            roles: self.roles@,
            captcha: self.captcha@,
            captcha_type: self.captcha_type@,
            captcha_len: self.captcha_len,
        }
    }
}

/// The greeting settings of a guild.
pub struct GreetingRecord {
    pub id: String,
    pub guild_id: String,
    pub channel_id: String,
    /// `true` when the greeting is on.
    pub enabled: String,
    pub text: Option<String>,
}

/// The addresses of the bot's collections on a PocketBase server.
pub struct PbEndpoints {
    base_url: String,
}

impl PbEndpoints {
    /// The server address, without trailing slashes.
    pub closed spec fn base(&self) -> Seq<char> {
        self.base_url@
    }

    /// The collections on the server at `base_url`; trailing slashes are dropped.
    pub fn new(base_url: &str) -> (r: PbEndpoints)
        ensures
            r.base() == strip_trailing_char(base_url@, '/'),
    {
        let c = chars_of(base_url);
        PbEndpoints { base_url: string_of(&strip_trailing_char_chars(&c, '/')) }
    }

    /// The server address, without trailing slashes.
    pub fn base_url(&self) -> (r: &str)
        ensures
            r@ == self.base(),
    {
        self.base_url.as_str()
    }

    fn at(&self, path: &str) -> (r: Vec<char>)
        ensures
            r@ == self.base() + path@,
    {
        let mut v = chars_of(self.base_url.as_str());
        append_str(&mut v, path);
        v
    }

    /// The records of the welcome messages.
    pub fn welcome_records(&self) -> (r: String)
        ensures
            r@ == self.base() + "/api/collections/welcome_messages/records"@,
    {
        string_of(&self.at("/api/collections/welcome_messages/records"))
    }

    /// The query for the welcome message with id `message_id`.
    pub fn welcome_lookup(&self, message_id: &str) -> (r: String)
        ensures
            r@ == self.base() + "/api/collections/welcome_messages/records?filter=(message_id='"@
                + message_id@ + "')"@,
    {
        let mut v = self.at("/api/collections/welcome_messages/records?filter=(message_id='");
        append_str(&mut v, message_id);
        append_str(&mut v, "')");
        string_of(&v)
    }

    /// The records of the greetings.
    pub fn greeting_records(&self) -> (r: String)
        ensures
            r@ == self.base() + "/api/collections/greetings/records"@,
    {
        string_of(&self.at("/api/collections/greetings/records"))
    }

    /// The greeting record with id `id`.
    pub fn greeting_record(&self, id: &str) -> (r: String)
        ensures
            r@ == self.base() + "/api/collections/greetings/records/"@ + id@,
    {
        let mut v = self.at("/api/collections/greetings/records/");
        append_str(&mut v, id);
        string_of(&v)
    }

    /// Where greeting settings are saved: the existing record `existing` of
    /// the guild is updated in place (`true`), else a new record is created (`false`).
    pub fn greeting_save(&self, existing: &Option<String>) -> (r: (bool, String))
        ensures
            match existing {
                Some(id) => r.0 && r.1@ == self.base() + "/api/collections/greetings/records/"@
                    + id@,
                None => !r.0 && r.1@ == self.base() + "/api/collections/greetings/records"@,
            },
    {
        match existing {
            Some(id) => (true, self.greeting_record(id.as_str())),
            None => (false, self.greeting_records()),
        }
    }

    /// The query for the greeting of guild `guild_id`.
    pub fn greeting_lookup(&self, guild_id: &str) -> (r: String)
        ensures
            r@ == self.base() + "/api/collections/greetings/records?filter=(guild_id='"@ + guild_id@
                + "')"@,
    {
        let mut v = self.at("/api/collections/greetings/records?filter=(guild_id='");
        append_str(&mut v, guild_id);
        append_str(&mut v, "')");
        string_of(&v)
    }
}

} // verus!
