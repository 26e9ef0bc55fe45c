use vstd::prelude::*;

use crate::json::{jv, jv_members, lemma_jv_members, Json, JsonV};
use crate::text::{owned, push_str};

verus! {

/// The arguments of the `send_soundboard_sound` tool.
pub struct SendSoundboardSoundParams {
    /// The voice channel ID to play the sound in
    pub channel_id: String,
    /// The soundboard sound ID
    pub sound_id: String,
    /// The source guild ID of the sound (for default sounds, omit)
    pub source_guild_id: Option<String>,
}

/// The arguments of the `list_guild_soundboard_sounds` tool.
pub struct ListGuildSoundboardSoundsParams {
    /// The guild (server) ID
    pub guild_id: String,
}

/// The arguments of the `get_guild_soundboard_sound` tool.
pub struct GetGuildSoundboardSoundParams {
    /// The guild (server) ID
    pub guild_id: String,
    /// The soundboard sound ID
    pub sound_id: String,
}

/// The arguments of the `delete_guild_soundboard_sound` tool.
pub struct DeleteGuildSoundboardSoundParams {
    /// The guild (server) ID
    pub guild_id: String,
    /// The soundboard sound ID
    pub sound_id: String,
}


/// The body that plays a soundboard sound: the sound and, where given, the
/// guild it comes from, with the keys in the order serde_json writes a map.
pub open spec fn sound_body(p: SendSoundboardSoundParams) -> JsonV {
    JsonV::Object(seq![("sound_id"@, JsonV::Str(p.sound_id@))] + source_member(p.source_guild_id))
}

/// The member naming the guild a sound comes from, where one is given.
pub open spec fn source_member(o: Option<String>) -> Seq<(Seq<char>, JsonV)> {
    match o {
        Some(g) => seq![("source_guild_id"@, JsonV::Str(g@))],
        None => Seq::empty(),
    }
}

/// The request that `send_soundboard_sound` makes: the path (with the
/// channel ID as given) and the body.
pub fn send_soundboard_sound(params: &SendSoundboardSoundParams) -> (r: (String, Json))
    ensures
        r.0@ == "/channels/"@ + params.channel_id@ + "/send-soundboard-sound"@,
        jv(r.1) == sound_body(*params),
{
    let mut members: Vec<(String, Json)> = Vec::new();
    members.push((owned("sound_id"), Json::Str(params.sound_id.clone())));
    if let Some(g) = &params.source_guild_id {
        members.push((owned("source_guild_id"), Json::Str(g.clone())));
    }
    proof {
        lemma_jv_members(members@);
    }
    let ghost tail = source_member(params.source_guild_id);
    assert(jv_members(members@) =~= seq![("sound_id"@, JsonV::Str(params.sound_id@))] + tail);
    let mut p = owned("/channels/");
    push_str(&mut p, params.channel_id.as_str());
    push_str(&mut p, "/send-soundboard-sound");
    (p, Json::Object(members))
}


/// The arguments of the `create_guild_soundboard_sound` tool.
pub struct CreateGuildSoundboardSoundParams {
    /// The guild (server) ID
    pub guild_id: String,
    /// Sound name (2-32 characters)
    pub name: String,
    /// Path to the audio file (mp3 or ogg, max 512KB)
    pub file_path: String,
    /// Volume of the sound (0.0 to 1.0, default 1.0), as the JSON value it
    /// is sent as: a number, or null where it is not finite
    pub volume: Option<Json>,
    /// Unicode emoji for the sound
    pub emoji_name: Option<String>,
    /// Custom emoji ID for the sound
    pub emoji_id: Option<String>,
}

/// The arguments of the `update_guild_soundboard_sound` tool.
pub struct UpdateGuildSoundboardSoundParams {
    /// The guild (server) ID
    pub guild_id: String,
    /// The soundboard sound ID
    pub sound_id: String,
    /// New sound name (2-32 characters)
    pub name: Option<String>,
    /// New volume (0.0 to 1.0), as the JSON value it is sent as: a number, or
    /// null where it is not finite
    pub volume: Option<Json>,
    /// Unicode emoji for the sound
    pub emoji_name: Option<String>,
    /// Custom emoji ID for the sound
    pub emoji_id: Option<String>,
}

/// A string member where the argument is given.
pub open spec fn text_member(key: Seq<char>, o: Option<String>) -> Seq<(Seq<char>, JsonV)> {
    match o {
        Some(t) => seq![(key, JsonV::Str(t@))],
        None => Seq::empty(),
    }
}

/// A member holding a JSON value where one is given.
pub open spec fn value_member(key: Seq<char>, o: Option<Json>) -> Seq<(Seq<char>, JsonV)> {
    match o {
        Some(v) => seq![(key, v@)],
        None => Seq::empty(),
    }
}

fn push_text_member(m: &mut Vec<(String, Json)>, key: &str, o: &Option<String>)
    ensures
        jv_members(final(m)@) == jv_members(old(m)@) + text_member(key@, *o),
{
    proof {
        lemma_jv_members(old(m)@);
    }
    if let Some(t) = o {
        let e = (owned(key), Json::Str(t.clone()));
        proof {
            crate::json::lemma_jv_members_push(m@, e);
        }
        m.push(e);
    }
    assert(jv_members(m@) =~= jv_members(old(m)@) + text_member(key@, *o));
}

fn push_value_member(m: &mut Vec<(String, Json)>, key: &str, o: &Option<Json>)
    ensures
        jv_members(final(m)@) == jv_members(old(m)@) + value_member(key@, *o),
{
    if let Some(v) = o {
        let e = (owned(key), v.deep_clone());
        proof {
            crate::json::lemma_jv_members_push(m@, e);
        }
        m.push(e);
    }
    assert(jv_members(m@) =~= jv_members(old(m)@) + value_member(key@, *o));
}

/// The body of a new soundboard sound: the given fields, with the keys in
/// the order serde_json writes a map.
pub open spec fn new_sound_body(p: CreateGuildSoundboardSoundParams, sound: Seq<char>) -> JsonV {
    JsonV::Object(
        text_member("emoji_id"@, p.emoji_id) + text_member("emoji_name"@, p.emoji_name) + seq![
            ("name"@, JsonV::Str(p.name@)),
            ("sound"@, JsonV::Str(sound)),
        ] + value_member("volume"@, p.volume),
    )
}

/// The request that `create_guild_soundboard_sound` makes, given the sound
/// file as a data URI: the path (with the guild ID as given) and the body.
pub fn create_guild_soundboard_sound(params: &CreateGuildSoundboardSoundParams, sound: &str) -> (r: (
    String,
    Json,
))
    ensures
        r.0@ == "/guilds/"@ + params.guild_id@ + "/soundboard-sounds"@,
        jv(r.1) == new_sound_body(*params, sound@),
{
    let mut m: Vec<(String, Json)> = Vec::new();
    assert(jv_members(m@) =~= Seq::empty());
    push_text_member(&mut m, "emoji_id", &params.emoji_id);
    push_text_member(&mut m, "emoji_name", &params.emoji_name);
    let ghost before = jv_members(m@);
    let e1 = (owned("name"), Json::Str(params.name.clone()));
    proof {
        crate::json::lemma_jv_members_push(m@, e1);
    }
    m.push(e1);
    let e2 = (owned("sound"), Json::Str(owned(sound)));
    proof {
        crate::json::lemma_jv_members_push(m@, e2);
    }
    m.push(e2);
    assert(jv_members(m@) =~= before + seq![
        ("name"@, JsonV::Str(params.name@)),
        ("sound"@, JsonV::Str(sound@)),
    ]);
    push_value_member(&mut m, "volume", &params.volume);
    let mut p = owned("/guilds/");
    push_str(&mut p, params.guild_id.as_str());
    push_str(&mut p, "/soundboard-sounds");
    let body = Json::Object(m);
    assert(jv(body) == new_sound_body(*params, sound@));
    (p, body)
}

/// The body of the changes to a soundboard sound: only the given fields,
/// with the keys in the order serde_json writes a map.
pub open spec fn sound_changes_body(p: UpdateGuildSoundboardSoundParams) -> JsonV {
    JsonV::Object(
        text_member("emoji_id"@, p.emoji_id) + text_member("emoji_name"@, p.emoji_name)
            + text_member("name"@, p.name) + value_member("volume"@, p.volume),
    )
}

/// The request that `update_guild_soundboard_sound` makes: the path (with
/// the guild and sound IDs as given) and the body.
pub fn update_guild_soundboard_sound(params: &UpdateGuildSoundboardSoundParams) -> (r: (
    String,
    Json,
))
    ensures
        r.0@ == "/guilds/"@ + params.guild_id@ + "/soundboard-sounds/"@ + params.sound_id@,
        jv(r.1) == sound_changes_body(*params),
{
    let mut m: Vec<(String, Json)> = Vec::new();
    assert(jv_members(m@) =~= Seq::empty());
    push_text_member(&mut m, "emoji_id", &params.emoji_id);
    push_text_member(&mut m, "emoji_name", &params.emoji_name);
    push_text_member(&mut m, "name", &params.name);
    push_value_member(&mut m, "volume", &params.volume);
    let mut p = owned("/guilds/");
    push_str(&mut p, params.guild_id.as_str());
    push_str(&mut p, "/soundboard-sounds/");
    push_str(&mut p, params.sound_id.as_str());
    let body = Json::Object(m);
    assert(jv(body) == sound_changes_body(*params));
    (p, body)
}

/// What `send_soundboard_sound` answers for Discord's reply: "Soundboard
/// sound sent" for a success, the status and text of any other reply, or why
/// the request failed.
pub fn send_soundboard_sound_result(reply: crate::tools::RawReply) -> (r: crate::tools::ToolOutcome)
    requires
        reply matches crate::tools::RawReply::Status(status, _) ==> 100 <= status <= 999,
    ensures
        match reply {
            crate::tools::RawReply::Success(_) => crate::tools::succeeds_with(r, "Soundboard sound sent"@),
            crate::tools::RawReply::Status(status, text) => crate::tools::fails_with(
                r,
                "Discord API error ("@ + crate::tools::status_display(status) + "): "@ + text@,
            ),
            crate::tools::RawReply::Unsent(why) => crate::tools::fails_with(r, "Request error: "@ + why@),
        },
{
    crate::tools::raw_message_result(reply, "Soundboard sound sent")
}


/// What `create_guild_soundboard_sound` answers for Discord's reply: the sound created as pretty-printed
/// JSON for a success; an internal error where that body is not JSON;
/// "Discord API error (<status>): <text>" for any other status; or
/// "Request error: <why>" where the request failed.
pub fn create_guild_soundboard_sound_result(reply: crate::tools::RawReply) -> (r: crate::tools::ToolOutcome)
    requires
        reply matches crate::tools::RawReply::Status(status, _) ==> 100 <= status <= 999,
    ensures
        crate::tools::raw_json_answers(reply, r),
{
    crate::tools::raw_json_result(reply)
}

/// What `update_guild_soundboard_sound` answers for Discord's reply: the sound as changed as pretty-printed
/// JSON for a success; an internal error where that body is not JSON;
/// "Discord API error (<status>): <text>" for any other status; or
/// "Request error: <why>" where the request failed.
pub fn update_guild_soundboard_sound_result(reply: crate::tools::RawReply) -> (r: crate::tools::ToolOutcome)
    requires
        reply matches crate::tools::RawReply::Status(status, _) ==> 100 <= status <= 999,
    ensures
        crate::tools::raw_json_answers(reply, r),
{
    crate::tools::raw_json_result(reply)
}

} // verus!
