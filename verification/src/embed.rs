//! The replies the bot posts: rich embeds, held as plain values.
use vstd::prelude::*;

verus! {

/// The bot's name, shown in every embed footer.
pub const BOT_NAME: &'static str = "JupaBot";

/// The accent colour of ordinary embeds.
pub const COLOR: u32 = 0x9C8EE9;

/// The accent colour of embeds that report a success.
pub const SUCCESS_COLOR: u32 = 0x57F287;

/// The accent colour of embeds that report an error.
pub const ERROR_COLOR: u32 = 0xED4245;

/// The prefix that starts every command.
pub const PREFIX: &'static str = "!";

/// The bot's logo, used as thumbnail and footer icon.
pub const LOGO: &'static str = "https://devimorris.tech/jupa_logo.png";

/// One named field of an embed.
pub struct EmbedField {
    pub name: String,
    pub value: String,
    pub inline: bool,
}

/// The footer line of an embed, with an optional icon.
pub struct EmbedFooter {
    pub text: String,
    pub icon_url: Option<String>,
}

/// An embed: a coloured card with a title, optional text, pictures and fields.
pub struct Embed {
    pub color: u32,
    pub title: String,
    pub description: Option<String>,
    pub thumbnail: Option<String>,
    pub image: Option<String>,
    pub footer: Option<EmbedFooter>,
    pub fields: Vec<EmbedField>,
}

/// The value of an embed field.
pub struct FieldView {
    pub name: Seq<char>,
    pub value: Seq<char>,
    pub inline: bool,
}

/// The value of an embed.
pub struct EmbedView {
    pub color: u32,
    pub title: Seq<char>,
    pub description: Option<Seq<char>>,
    pub thumbnail: Option<Seq<char>>,
    pub image: Option<Seq<char>>,
    pub footer: Option<(Seq<char>, Option<Seq<char>>)>,
    pub fields: Seq<FieldView>,
}

/// The text of an optional `String`.
pub open spec fn opt_text(o: Option<String>) -> Option<Seq<char>> {
    match o {
        Some(s) => Some(s@),
        None => None,
    }
}

impl View for EmbedField {
    type V = FieldView;

    open spec fn view(&self) -> FieldView {
        FieldView { name: self.name@, value: self.value@, inline: self.inline }
    }
}

impl View for Embed {
    type V = EmbedView;

    open spec fn view(&self) -> EmbedView {
        EmbedView {
            color: self.color,
            title: self.title@,
            description: opt_text(self.description),
            thumbnail: opt_text(self.thumbnail),
            image: opt_text(self.image),
            footer: match self.footer {
                Some(f) => Some((f.text@, opt_text(f.icon_url))),
                None => None,
            },
            fields: self.fields@.map_values(|f: EmbedField| f@),
        }
    }
}

impl EmbedView {
    /// This embed with its description set to `d`.
    pub open spec fn describe(self, d: Seq<char>) -> EmbedView {
        EmbedView { description: Some(d), ..self }
    }

    /// This embed with one more field at the end.
    pub open spec fn field(self, name: Seq<char>, value: Seq<char>, inline: bool) -> EmbedView {
        EmbedView {
            fields: self.fields.push(FieldView { name, value, inline }),
            ..self
        }
    }

    /// This embed with its thumbnail set to `url`.
    pub open spec fn thumb(self, url: Seq<char>) -> EmbedView {
        EmbedView { thumbnail: Some(url), ..self }
    }

    /// This embed with its image set to `url`.
    pub open spec fn picture(self, url: Seq<char>) -> EmbedView {
        EmbedView { image: Some(url), ..self }
    }
}

/// The footer every embed of the bot carries: its name and logo.
pub open spec fn bot_footer() -> Option<(Seq<char>, Option<Seq<char>>)> {
    Some((BOT_NAME@, Some(LOGO@)))
}

/// A card of colour `color` titled `title` with the logo as thumbnail and the bot footer.
pub open spec fn card(color: u32, title: Seq<char>) -> EmbedView {
    EmbedView {
        color,
        title,
        description: None,
        thumbnail: Some(LOGO@),
        image: None,
        footer: bot_footer(),
        fields: Seq::empty(),
    }
}

/// An ordinary card titled `title`.
pub open spec fn plain_card(title: Seq<char>) -> EmbedView {
    card(COLOR, title)
}

/// A success card titled `title`.
pub open spec fn success_card(title: Seq<char>) -> EmbedView {
    card(SUCCESS_COLOR, title)
}

/// An error card titled `title`.
pub open spec fn error_card(title: Seq<char>) -> EmbedView {
    card(ERROR_COLOR, title)
}

/// A picture card titled `title` showing `image`, with the bot footer and no thumbnail.
pub open spec fn picture_card(title: Seq<char>, image: Seq<char>) -> EmbedView {
    EmbedView {
        color: COLOR,
        title,
        description: None,
        thumbnail: None,
        image: Some(image),
        footer: bot_footer(),
        fields: Seq::empty(),
    }
}

/// An owned copy of a string slice.
pub fn owned(s: &str) -> (r: String)
    ensures
        r@ == s@,
{
    s.to_owned()
}

fn bot_footer_exec() -> (f: EmbedFooter)
    ensures
        Some((f.text@, opt_text(f.icon_url))) == bot_footer(),
{
    EmbedFooter { text: owned(BOT_NAME), icon_url: Some(owned(LOGO)) }
}

fn card_exec(color: u32, title: &str) -> (e: Embed)
    ensures
        e@ == card(color, title@),
{
    let e = Embed {
        color,
        title: owned(title),
        description: None,
        thumbnail: Some(owned(LOGO)),
        image: None,
        footer: Some(bot_footer_exec()),
        fields: Vec::new(),
    };
    assert(e@.fields =~= Seq::<FieldView>::empty());
    e
}

/// An ordinary embed titled `title`.
pub fn embed(title: &str) -> (e: Embed)
    ensures
        e@ == plain_card(title@),
{
    card_exec(COLOR, title)
}

/// An embed titled `title` that shows the picture at `image`.
pub fn embed_image(title: &str, image: &str) -> (e: Embed)
    ensures
        e@ == picture_card(title@, image@),
{
    let e = Embed {
        color: COLOR,
        title: owned(title),
        description: None,
        thumbnail: None,
        image: Some(owned(image)),
        footer: Some(bot_footer_exec()),
        fields: Vec::new(),
    };
    assert(e@.fields =~= Seq::<FieldView>::empty());
    e
}

/// An embed titled `title` that reports a success.
pub fn embed_success(title: &str) -> (e: Embed)
    ensures
        e@ == success_card(title@),
{
    card_exec(SUCCESS_COLOR, title)
}

/// An embed titled `title` that reports an error.
pub fn embed_error(title: &str) -> (e: Embed)
    ensures
        e@ == error_card(title@),
{
    card_exec(ERROR_COLOR, title)
}

impl Embed {
    /// This embed with its description set to `d`.
    pub fn description(self, d: String) -> (e: Embed)
        ensures
            e@ == self@.describe(d@),
    {
        Embed { description: Some(d), ..self }
    }

    /// This embed with its description set to `d`.
    pub fn description_str(self, d: &str) -> (e: Embed)
        ensures
            e@ == self@.describe(d@),
    {
        self.description(owned(d))
    }

    /// This embed with one more field `name`: `value` at the end.
    pub fn field(self, name: &str, value: String, inline: bool) -> (e: Embed)
        ensures
            e@ == self@.field(name@, value@, inline),
    {
        let mut fields = self.fields;
        let ghost before = fields@;
        let f = EmbedField { name: owned(name), value, inline };
        fields.push(f);
        let e = Embed { fields, ..self };
        assert(e@.fields =~= self@.fields.push(f@));
        e
    }

    /// This embed with one more field whose value is the text `value`.
    pub fn field_str(self, name: &str, value: &str, inline: bool) -> (e: Embed)
        ensures
            e@ == self@.field(name@, value@, inline),
    {
        self.field(name, owned(value), inline)
    }

    /// This embed with its thumbnail set to `url`.
    pub fn thumbnail(self, url: String) -> (e: Embed)
        ensures
            e@ == self@.thumb(url@),
    {
        Embed { thumbnail: Some(url), ..self }
    }

    /// This embed with its image set to `url`.
    pub fn image(self, url: &str) -> (e: Embed)
        ensures
            e@ == self@.picture(url@),
    {
        Embed { image: Some(owned(url)), ..self }
    }
}

} // verus!
