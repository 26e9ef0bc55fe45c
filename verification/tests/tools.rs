use discord_mcp_rs::jsontext::to_json_text;
use discord_mcp_rs::tools::audit_log::{get_audit_log, GetAuditLogParams};
use discord_mcp_rs::tools::automod::{
    create_automod_rule, update_automod_rule, AutomodTrigger, CreateAutomodRuleParams,
    KeywordPreset, UpdateAutomodRuleParams,
};
use discord_mcp_rs::tools::channels::{
    create_channel, parse_channel_type, update_channel, update_channel_positions, ChannelKind,
    ChannelPosition, CreateChannelParams, UpdateChannelParams, UpdateChannelPositionsParams,
};
use discord_mcp_rs::tools::interactions::{
    create_interaction_response, CreateInteractionResponseParams, ResponseKind,
};
use discord_mcp_rs::tools::members::{update_guild_member, UpdateGuildMemberParams};
use discord_mcp_rs::tools::messages::{
    bulk_delete_messages, bulk_deleted_message, list_messages, BulkDeleteMessagesParams,
    ListMessagesParams, MessagePage,
};
use discord_mcp_rs::tools::monetization::{
    create_test_entitlement, list_entitlements, list_sku_subscriptions,
    CreateTestEntitlementParams, ListEntitlementsParams, ListSkuSubscriptionsParams,
};
use discord_mcp_rs::tools::permissions::{
    delete_channel_permission, parse_permissions, update_channel_permission,
    DeleteChannelPermissionParams, OverwriteTarget, UpdateChannelPermissionParams,
};
use discord_mcp_rs::tools::reactions::{parse_emoji, ReactionEmoji};
use discord_mcp_rs::tools::roles::{create_role, update_role, CreateRoleParams, UpdateRoleParams};
use discord_mcp_rs::tools::scheduled_events::{
    create_scheduled_event, scheduled_event_from_times, scheduled_event_update_from_times,
    update_scheduled_event, CreateScheduledEventParams, EntityKind, EventEntity, EventStatus,
    UpdateScheduledEventParams,
};
use discord_mcp_rs::tools::soundboard::{send_soundboard_sound, SendSoundboardSoundParams};
use discord_mcp_rs::tools::stage_instances::{
    create_stage_instance, update_stage_instance, CreateStageInstanceParams,
    UpdateStageInstanceParams,
};
use discord_mcp_rs::tools::threads::{
    create_thread, create_thread_from_message, CreateThreadFromMessageParams, CreateThreadParams,
    ThreadKind,
};
use discord_mcp_rs::tools::{snowflakes, CodeField, Needed, TimeField, ToolError};
use discord_mcp_rs::util::IdError;

use discord_mcp_rs::json::Json;
use discord_mcp_rs::tools::automod::create_automod_rule_result;
use discord_mcp_rs::tools::scheduled_events::update_scheduled_event_result;
use discord_mcp_rs::tools::soundboard::update_guild_soundboard_sound_result;
use discord_mcp_rs::tools::interactions::create_interaction_response_result;
use discord_mcp_rs::tools::monetization::list_entitlements_result;
use discord_mcp_rs::tools::soundboard::{
    create_guild_soundboard_sound, send_soundboard_sound_result, update_guild_soundboard_sound,
    CreateGuildSoundboardSoundParams, UpdateGuildSoundboardSoundParams,
};
use discord_mcp_rs::tools::{
    client_json_result, deserialize_error, json_result, raw_error, text_result, RawReply,
    ToolOutcome,
};
use discord_mcp_rs::util::{upload_mime, uploaded_data_uri};

fn s(t: &str) -> String {
    t.to_string()
}

fn message<T>(r: Result<T, ToolError>) -> String {
    match r {
        Ok(_) => panic!("expected a refusal"),
        Err(e) => e.message(),
    }
}

fn automod(trigger_type: u8) -> CreateAutomodRuleParams {
    CreateAutomodRuleParams {
        guild_id: s("1"),
        name: s("no spam"),
        event_type: 1,
        trigger_type,
        keyword_filter: Some(vec![s("bad")]),
        regex_patterns: None,
        allow_list: Some(vec![s("ok")]),
        presets: Some(vec![1, 3]),
        mention_total_limit: None,
        enabled: Some(true),
    }
}

#[test]
fn automod_keyword_rule() {
    let rule = match create_automod_rule(automod(1)) {
        Ok(r) => r,
        Err(e) => panic!("{}", e.message()),
    };
    assert_eq!(rule.guild_id, 1);
    assert_eq!(rule.name, "no spam");
    assert_eq!(rule.enabled, Some(true));
    match rule.trigger {
        AutomodTrigger::Keyword { keyword_filter, regex_patterns, allow_list } => {
            assert_eq!(keyword_filter, vec![s("bad")]);
            assert!(regex_patterns.is_empty());
            assert_eq!(allow_list, vec![s("ok")]);
        }
        _ => panic!("expected a keyword trigger"),
    }
}

#[test]
fn automod_other_triggers() {
    assert!(matches!(create_automod_rule(automod(3)).ok().unwrap().trigger, AutomodTrigger::Spam));
    match create_automod_rule(automod(4)).ok().unwrap().trigger {
        AutomodTrigger::KeywordPreset { presets, allow_list } => {
            assert_eq!(presets, vec![KeywordPreset::Profanity, KeywordPreset::Slurs]);
            assert_eq!(allow_list, vec![s("ok")]);
        }
        _ => panic!("expected a preset trigger"),
    }
    match create_automod_rule(automod(5)).ok().unwrap().trigger {
        AutomodTrigger::MentionSpam { mention_total_limit } => assert_eq!(mention_total_limit, 5),
        _ => panic!("expected a mention trigger"),
    }
    let mut p = automod(5);
    p.mention_total_limit = Some(9);
    match create_automod_rule(p).ok().unwrap().trigger {
        AutomodTrigger::MentionSpam { mention_total_limit } => assert_eq!(mention_total_limit, 9),
        _ => panic!("expected a mention trigger"),
    }
}

#[test]
fn automod_refusals() {
    let mut p = automod(1);
    p.guild_id = s("guild");
    assert_eq!(message(create_automod_rule(p)), "Invalid ID 'guild': must be a numeric snowflake ID");
    let mut p = automod(2);
    p.event_type = 2;
    assert_eq!(message(create_automod_rule(p)), "Invalid event_type 2. Valid: 1=message_send");
    assert_eq!(
        message(create_automod_rule(automod(2))),
        "Invalid trigger_type 2. Valid: 1=keyword, 3=spam, 4=keyword_preset, 5=mention_spam"
    );
    let mut p = automod(4);
    p.presets = Some(vec![2, 7, 9]);
    assert!(matches!(create_automod_rule(p), Err(ToolError::BadCode(CodeField::Preset, 7))));
    let mut p = automod(4);
    p.presets = Some(vec![0]);
    assert_eq!(
        message(create_automod_rule(p)),
        "Invalid preset 0. Valid: 1=profanity, 2=sexual_content, 3=slurs"
    );
    let mut p = automod(4);
    p.presets = None;
    match create_automod_rule(p).ok().unwrap().trigger {
        AutomodTrigger::KeywordPreset { presets, .. } => assert!(presets.is_empty()),
        _ => panic!("expected a preset trigger"),
    }
}

#[test]
fn automod_update() {
    let p = UpdateAutomodRuleParams {
        guild_id: s("1"),
        rule_id: s("2"),
        name: Some(s("renamed")),
        event_type: Some(1),
        keyword_filter: None,
        regex_patterns: Some(vec![s("a+")]),
        allow_list: None,
        enabled: None,
    };
    let u = update_automod_rule(p).ok().unwrap();
    assert_eq!((u.guild_id, u.rule_id), (1, 2));
    assert_eq!(u.name.as_deref(), Some("renamed"));
    assert!(u.message_send);
    let m = u.trigger_metadata.unwrap();
    assert!(m.keyword_filter.is_none());
    assert_eq!(m.regex_patterns, Some(vec![s("a+")]));
    let p = UpdateAutomodRuleParams {
        guild_id: s("1"),
        rule_id: s("0"),
        name: None,
        event_type: Some(9),
        keyword_filter: None,
        regex_patterns: None,
        allow_list: None,
        enabled: Some(false),
    };
    assert_eq!(message(update_automod_rule(p)), "ID must be non-zero");
    let p = UpdateAutomodRuleParams {
        guild_id: s("1"),
        rule_id: s("3"),
        name: None,
        event_type: None,
        keyword_filter: None,
        regex_patterns: None,
        allow_list: None,
        enabled: Some(false),
    };
    let u = update_automod_rule(p).ok().unwrap();
    assert!(!u.message_send);
    assert!(u.trigger_metadata.is_none());
}

fn event(entity_type: u8) -> CreateScheduledEventParams {
    CreateScheduledEventParams {
        guild_id: s("10"),
        name: s("Launch"),
        privacy_level: 2,
        scheduled_start_time: s("2021-01-01T01:01:01+00:00"),
        scheduled_end_time: Some(s("2021-01-01T02:01:01.010000+00:00")),
        entity_type,
        channel_id: Some(s("20")),
        location: Some(s("Town hall")),
        description: None,
    }
}

#[test]
fn scheduled_event_kinds() {
    let e = create_scheduled_event(event(1)).ok().unwrap();
    assert_eq!(e.guild_id, 10);
    assert_eq!(e.scheduled_start_time, 1_609_462_861_000_000);
    assert!(matches!(e.entity, EventEntity::StageInstance { channel_id: 20 }));
    let e = create_scheduled_event(event(2)).ok().unwrap();
    assert!(matches!(e.entity, EventEntity::Voice { channel_id: 20 }));
    let e = create_scheduled_event(event(3)).ok().unwrap();
    match e.entity {
        EventEntity::External { location, scheduled_end_time } => {
            assert_eq!(location, "Town hall");
            assert_eq!(scheduled_end_time, 1_609_466_461_010_000);
        }
        _ => panic!("expected an external event"),
    }
}

#[test]
fn scheduled_event_refusals() {
    let mut p = event(1);
    p.privacy_level = 1;
    assert_eq!(message(create_scheduled_event(p)), "Invalid privacy_level 1. Valid: 2=guild_only");
    let mut p = event(1);
    p.scheduled_start_time = s("2021-08-10T18:19:59Z");
    assert_eq!(
        message(create_scheduled_event(p)),
        "Invalid scheduled_start_time ISO8601 timestamp"
    );
    let mut p = event(1);
    p.channel_id = None;
    assert_eq!(
        message(create_scheduled_event(p)),
        "channel_id required for stage_instance entity type"
    );
    let mut p = event(2);
    p.channel_id = None;
    assert_eq!(message(create_scheduled_event(p)), "channel_id required for voice entity type");
    let mut p = event(3);
    p.location = None;
    assert_eq!(message(create_scheduled_event(p)), "location required for external entity type");
    let mut p = event(3);
    p.scheduled_end_time = None;
    assert_eq!(
        message(create_scheduled_event(p)),
        "scheduled_end_time required for external entity type"
    );
    let mut p = event(3);
    p.scheduled_end_time = Some(s("tomorrow"));
    assert_eq!(message(create_scheduled_event(p)), "Invalid scheduled_end_time ISO8601 timestamp");
    assert_eq!(
        message(create_scheduled_event(event(4))),
        "Invalid entity_type 4. Valid: 1=stage_instance, 2=voice, 3=external"
    );
    // The end time only matters for external events.
    let mut p = event(2);
    p.scheduled_end_time = Some(s("never"));
    assert!(create_scheduled_event(p).is_ok());
}

#[test]
fn scheduled_event_from_given_times() {
    let e = scheduled_event_from_times(event(3), Some(5), Some(7)).ok().unwrap();
    assert_eq!(e.scheduled_start_time, 5);
    assert!(matches!(e.entity, EventEntity::External { scheduled_end_time: 7, .. }));
    assert!(matches!(
        scheduled_event_from_times(event(3), None, Some(7)),
        Err(ToolError::BadTimestamp(TimeField::Start, true))
    ));
    assert!(matches!(
        scheduled_event_from_times(event(3), Some(5), None),
        Err(ToolError::BadTimestamp(TimeField::End, true))
    ));
}

fn event_update() -> UpdateScheduledEventParams {
    UpdateScheduledEventParams {
        guild_id: s("1"),
        event_id: s("2"),
        name: None,
        description: Some(s("new")),
        scheduled_start_time: Some(s("2021-01-01T01:01:01+00:00")),
        scheduled_end_time: None,
        entity_type: Some(3),
        channel_id: Some(s("30")),
        location: None,
        status: Some(4),
    }
}

#[test]
fn scheduled_event_update() {
    let u = update_scheduled_event(event_update()).ok().unwrap();
    assert_eq!(u.scheduled_start_time, Some(1_609_462_861_000_000));
    assert_eq!(u.scheduled_end_time, None);
    assert_eq!(u.entity_type, Some(EntityKind::External));
    assert_eq!(u.channel_id, Some(30));
    assert_eq!(u.status, Some(EventStatus::Cancelled));
    assert_eq!(u.description.as_deref(), Some("new"));
    let mut p = event_update();
    p.scheduled_start_time = Some(s("bad"));
    assert_eq!(message(update_scheduled_event(p)), "Invalid scheduled_start_time");
    let mut p = event_update();
    p.scheduled_end_time = Some(s("bad"));
    assert_eq!(message(update_scheduled_event(p)), "Invalid scheduled_end_time");
    let mut p = event_update();
    p.entity_type = Some(0);
    assert_eq!(message(update_scheduled_event(p)), "Invalid entity_type 0");
    let mut p = event_update();
    p.status = Some(5);
    assert_eq!(
        message(update_scheduled_event(p)),
        "Invalid status 5. Valid: 1=scheduled, 2=active, 3=completed, 4=canceled"
    );
    let mut p = event_update();
    p.channel_id = Some(s("x"));
    p.status = Some(5);
    assert_eq!(message(update_scheduled_event(p)), "Invalid ID 'x': must be a numeric snowflake ID");
    let u = scheduled_event_update_from_times(event_update(), Some(1), Some(2)).ok().unwrap();
    assert_eq!(u.scheduled_start_time, Some(1));
    assert_eq!(u.scheduled_end_time, None);
}

#[test]
fn interaction_responses() {
    let p = CreateInteractionResponseParams {
        interaction_id: s("5"),
        interaction_token: s("tok"),
        response_type: 4,
        content: Some(s("hello")),
    };
    let r = create_interaction_response(p).ok().unwrap();
    assert_eq!(r.interaction_id, 5);
    assert_eq!(r.interaction_token, "tok");
    assert_eq!(r.kind, ResponseKind::ChannelMessageWithSource);
    assert_eq!(r.content.as_deref(), Some("hello"));
    for (code, kind) in [
        (1, ResponseKind::Pong),
        (5, ResponseKind::DeferredChannelMessageWithSource),
        (6, ResponseKind::DeferredUpdateMessage),
        (7, ResponseKind::UpdateMessage),
    ] {
        let p = CreateInteractionResponseParams {
            interaction_id: s("5"),
            interaction_token: s("tok"),
            response_type: code,
            content: None,
        };
        assert_eq!(create_interaction_response(p).ok().unwrap().kind, kind);
    }
    let p = CreateInteractionResponseParams {
        interaction_id: s("5"),
        interaction_token: s("tok"),
        response_type: 2,
        content: None,
    };
    assert_eq!(
        message(create_interaction_response(p)),
        "Invalid response_type 2. Valid: 1=pong, 4=channel_message, 5=deferred_channel_message, 6=deferred_update, 7=update_message"
    );
}

#[test]
fn permission_sets_keep_known_bits() {
    assert_eq!(parse_permissions(&s("8")).ok(), Some(8));
    // Bits 47 and 48 are not permissions that twilight knows.
    assert_eq!(parse_permissions(&s("140737488355328")).ok(), Some(0));
    assert_eq!(parse_permissions(&s("18446744073709551615")).ok(), Some(0x001E_7FFF_FFFF_FFFF));
    assert_eq!(
        message(parse_permissions(&s(" 8"))),
        "Permissions must be a decimal number string"
    );
}

#[test]
fn channel_permission_overwrites() {
    let p = UpdateChannelPermissionParams {
        channel_id: s("1"),
        target_id: s("2"),
        target_type: s("member"),
        allow: Some(s("1024")),
        deny: None,
    };
    let o = update_channel_permission(&p).ok().unwrap();
    assert_eq!((o.channel_id, o.target_id, o.allow, o.deny), (1, 2, 1024, 0));
    assert_eq!(o.kind, OverwriteTarget::Member);
    let p = UpdateChannelPermissionParams {
        channel_id: s("1"),
        target_id: s("2"),
        target_type: s("Role"),
        allow: None,
        deny: None,
    };
    assert_eq!(
        message(update_channel_permission(&p)),
        "Invalid target_type 'Role'. Must be 'role' or 'member'"
    );
    let p = UpdateChannelPermissionParams {
        channel_id: s("1"),
        target_id: s("2"),
        target_type: s("role"),
        allow: None,
        deny: Some(s("all")),
    };
    assert!(matches!(update_channel_permission(&p), Err(ToolError::BadPermissions)));
    let d = DeleteChannelPermissionParams { channel_id: s("1"), target_id: s("x"), target_type: s("guild") };
    assert!(matches!(delete_channel_permission(&d), Err(ToolError::BadTargetType(_))));
    let d = DeleteChannelPermissionParams { channel_id: s("1"), target_id: s("x"), target_type: s("role") };
    assert!(matches!(delete_channel_permission(&d), Err(ToolError::BadId(_, IdError::NotNumeric))));
    let d = DeleteChannelPermissionParams { channel_id: s("1"), target_id: s("9"), target_type: s("role") };
    let r = delete_channel_permission(&d).ok().unwrap();
    assert_eq!((r.channel_id, r.kind, r.target_id), (1, OverwriteTarget::Role, 9));
}

#[test]
fn channel_types_and_channels() {
    for (code, kind) in [
        (0, ChannelKind::GuildText),
        (2, ChannelKind::GuildVoice),
        (4, ChannelKind::GuildCategory),
        (5, ChannelKind::GuildAnnouncement),
        (13, ChannelKind::GuildStageVoice),
        (15, ChannelKind::GuildForum),
    ] {
        assert_eq!(parse_channel_type(code).ok(), Some(kind));
    }
    assert_eq!(
        message(parse_channel_type(1)),
        "Invalid channel_type 1. Valid: 0=text, 2=voice, 4=category, 5=announcement, 13=stage, 15=forum"
    );
    let p = CreateChannelParams {
        guild_id: s("3"),
        name: s("general"),
        channel_type: Some(2),
        topic: None,
        nsfw: Some(false),
        parent_id: Some(s("4")),
        position: Some(1),
    };
    let c = create_channel(p).ok().unwrap();
    assert_eq!((c.guild_id, c.kind, c.parent_id, c.position), (3, Some(ChannelKind::GuildVoice), Some(4), Some(1)));
    let p = CreateChannelParams {
        guild_id: s("3"),
        name: s("general"),
        channel_type: Some(3),
        topic: None,
        nsfw: None,
        parent_id: Some(s("bad")),
        position: None,
    };
    assert!(matches!(create_channel(p), Err(ToolError::BadCode(CodeField::ChannelType, 3))));
    let p = UpdateChannelParams {
        channel_id: s("3"),
        name: None,
        topic: Some(s("t")),
        nsfw: None,
        parent_id: Some(s("0")),
        position: None,
    };
    assert!(matches!(update_channel(p), Err(ToolError::BadId(_, IdError::Zero))));
}

#[test]
fn channel_positions() {
    let p = UpdateChannelPositionsParams {
        guild_id: s("1"),
        positions: vec![
            ChannelPosition { id: s("10"), position: 0 },
            ChannelPosition { id: s("11"), position: 5 },
        ],
    };
    let r = update_channel_positions(&p).ok().unwrap();
    assert_eq!(r.guild_id, 1);
    assert_eq!(r.positions, vec![(10, 0), (11, 5)]);
    let p = UpdateChannelPositionsParams {
        guild_id: s("1"),
        positions: vec![
            ChannelPosition { id: s("10"), position: 0 },
            ChannelPosition { id: s("x1"), position: 5 },
            ChannelPosition { id: s("0"), position: 5 },
        ],
    };
    assert_eq!(message(update_channel_positions(&p)), "Invalid ID 'x1': must be a numeric snowflake ID");
}

#[test]
fn threads_and_stages() {
    let t = create_thread(CreateThreadParams {
        channel_id: s("1"),
        name: s("topic"),
        thread_type: None,
        auto_archive_duration: Some(1440),
    })
    .ok()
    .unwrap();
    assert_eq!(t.kind, ThreadKind::PublicThread);
    assert_eq!(t.auto_archive_duration, Some(1440));
    let t = create_thread(CreateThreadParams {
        channel_id: s("1"),
        name: s("topic"),
        thread_type: Some(12),
        auto_archive_duration: None,
    })
    .ok()
    .unwrap();
    assert_eq!(t.kind, ThreadKind::PrivateThread);
    assert_eq!(
        message(create_thread(CreateThreadParams {
            channel_id: s("1"),
            name: s("topic"),
            thread_type: Some(10),
            auto_archive_duration: None,
        })),
        "Invalid thread_type 10. Valid: 11=public, 12=private"
    );
    let t = create_thread_from_message(CreateThreadFromMessageParams {
        channel_id: s("1"),
        message_id: s("2"),
        name: s("n"),
        auto_archive_duration: None,
    })
    .ok()
    .unwrap();
    assert_eq!((t.channel_id, t.message_id), (1, 2));
    let st = create_stage_instance(CreateStageInstanceParams {
        channel_id: s("7"),
        topic: s("AMA"),
        privacy_level: None,
    })
    .ok()
    .unwrap();
    assert_eq!((st.channel_id, st.topic.as_str()), (7, "AMA"));
    assert_eq!(
        message(create_stage_instance(CreateStageInstanceParams {
            channel_id: s("7"),
            topic: s("AMA"),
            privacy_level: Some(1),
        })),
        "Invalid privacy_level 1. Valid: 2=guild_only"
    );
    let up = update_stage_instance(UpdateStageInstanceParams {
        channel_id: s("7"),
        topic: None,
        privacy_level: Some(2),
    })
    .ok()
    .unwrap();
    assert!(up.guild_only);
}

#[test]
fn message_listing_anchors() {
    let p = ListMessagesParams {
        channel_id: s("1"),
        limit: Some(10),
        before: Some(s("5")),
        after: Some(s("bad")),
        around: None,
    };
    let l = list_messages(&p).ok().unwrap();
    assert_eq!(l.page, MessagePage::Before(5));
    assert_eq!(l.limit, Some(10));
    let p = ListMessagesParams { channel_id: s("1"), limit: None, before: None, after: Some(s("6")), around: Some(s("7")) };
    assert_eq!(list_messages(&p).ok().unwrap().page, MessagePage::After(6));
    let p = ListMessagesParams { channel_id: s("1"), limit: None, before: None, after: None, around: Some(s("7")) };
    assert_eq!(list_messages(&p).ok().unwrap().page, MessagePage::Around(7));
    let p = ListMessagesParams { channel_id: s("1"), limit: None, before: None, after: None, around: None };
    assert_eq!(list_messages(&p).ok().unwrap().page, MessagePage::Latest);
    let p = ListMessagesParams { channel_id: s("1"), limit: None, before: None, after: Some(s("z")), around: None };
    assert!(list_messages(&p).is_err());
}

#[test]
fn bulk_deletion() {
    let p = BulkDeleteMessagesParams { channel_id: s("1"), message_ids: vec![s("2"), s(" 3 ")] };
    let d = bulk_delete_messages(&p).ok().unwrap();
    assert_eq!(d.message_ids, vec![2, 3]);
    assert_eq!(bulk_deleted_message(d.message_ids.len()), "2 messages deleted successfully");
    let p = BulkDeleteMessagesParams { channel_id: s("1"), message_ids: vec![s("2"), s("0"), s("q")] };
    assert_eq!(message(bulk_delete_messages(&p)), "ID must be non-zero");
    assert_eq!(snowflakes(&vec![]).ok(), Some(vec![]));
}

#[test]
fn member_updates() {
    let p = UpdateGuildMemberParams {
        guild_id: s("1"),
        user_id: s("2"),
        nick: Some(s("nick")),
        roles: Some(vec![s("3"), s("4")]),
        mute: Some(true),
        deaf: None,
        channel_id: None,
    };
    let m = update_guild_member(p).ok().unwrap();
    assert_eq!(m.roles, Some(vec![3, 4]));
    assert_eq!(m.nick.as_deref(), Some("nick"));
    let p = UpdateGuildMemberParams {
        guild_id: s("1"),
        user_id: s("2"),
        nick: None,
        roles: Some(vec![s("r")]),
        mute: None,
        deaf: None,
        channel_id: Some(s("c")),
    };
    assert_eq!(message(update_guild_member(p)), "Invalid ID 'r': must be a numeric snowflake ID");
    let p = UpdateGuildMemberParams {
        guild_id: s("1"),
        user_id: s("2"),
        nick: None,
        roles: None,
        mute: None,
        deaf: None,
        channel_id: Some(s("c")),
    };
    assert_eq!(message(update_guild_member(p)), "Invalid ID 'c': must be a numeric snowflake ID");
}

#[test]
fn reaction_emoji() {
    match parse_emoji("👍") {
        ReactionEmoji::Unicode { name } => assert_eq!(name, "👍"),
        _ => panic!("expected a unicode emoji"),
    }
    match parse_emoji("party:123") {
        ReactionEmoji::Custom { name, id } => {
            assert_eq!(name, "party");
            assert_eq!(id, 123);
        }
        _ => panic!("expected a custom emoji"),
    }
    match parse_emoji("a:b:42") {
        ReactionEmoji::Custom { name, id } => assert_eq!((name.as_str(), id), ("a:b", 42)),
        _ => panic!("expected a custom emoji"),
    }
    assert!(matches!(parse_emoji("x:0"), ReactionEmoji::Unicode { .. }));
    assert!(matches!(parse_emoji("x:"), ReactionEmoji::Unicode { .. }));
    assert!(matches!(parse_emoji("x:12a"), ReactionEmoji::Unicode { .. }));
    match parse_emoji(":5") {
        ReactionEmoji::Custom { name, id } => assert_eq!((name.as_str(), id), ("", 5)),
        _ => panic!("expected a custom emoji"),
    }
}

#[test]
fn entitlement_requests() {
    let p = ListEntitlementsParams {
        user_id: Some(s("9")),
        sku_ids: None,
        guild_id: Some(s("8")),
        limit: Some(100),
        exclude_ended: Some(false),
    };
    let (path, q) = list_entitlements(77, &p);
    assert_eq!(path, "/applications/77/entitlements");
    assert_eq!(
        q,
        vec![
            (s("user_id"), s("9")),
            (s("guild_id"), s("8")),
            (s("limit"), s("100")),
            (s("exclude_ended"), s("false")),
        ]
    );
    let empty = ListEntitlementsParams { user_id: None, sku_ids: None, guild_id: None, limit: None, exclude_ended: None };
    assert!(list_entitlements(1, &empty).1.is_empty());
    let p = ListSkuSubscriptionsParams { sku_id: s("5"), limit: Some(2), after: None, before: Some(s("3")), user_id: Some(s("4")) };
    let (path, q) = list_sku_subscriptions(&p);
    assert_eq!(path, "/skus/5/subscriptions");
    assert_eq!(q, vec![(s("limit"), s("2")), (s("before"), s("3")), (s("user_id"), s("4"))]);
    let p = CreateTestEntitlementParams { sku_id: s("1"), owner_id: s("2"), owner_type: 1 };
    let (path, body) = create_test_entitlement(77, &p);
    assert_eq!(path, "/applications/77/entitlements");
    assert_eq!(to_json_text(&body), "{\"owner_id\":\"2\",\"owner_type\":1,\"sku_id\":\"1\"}");
}

#[test]
fn soundboard_request() {
    let p = SendSoundboardSoundParams { channel_id: s("12"), sound_id: s("34"), source_guild_id: None };
    let (path, body) = send_soundboard_sound(&p);
    assert_eq!(path, "/channels/12/send-soundboard-sound");
    assert_eq!(to_json_text(&body), "{\"sound_id\":\"34\"}");
    let p = SendSoundboardSoundParams { channel_id: s("12"), sound_id: s("34"), source_guild_id: Some(s("56")) };
    assert_eq!(
        to_json_text(&send_soundboard_sound(&p).1),
        "{\"sound_id\":\"34\",\"source_guild_id\":\"56\"}"
    );
}

#[test]
fn roles() {
    let p = CreateRoleParams {
        guild_id: s("1"),
        name: Some(s("mods")),
        color: Some(0xff0000),
        hoist: None,
        mentionable: Some(true),
        permissions: Some(s("281474976710656")),
    };
    let r = create_role(p).ok().unwrap();
    assert_eq!(r.fields.permissions, Some(0));
    assert_eq!(r.fields.color, Some(0xff0000));
    let p = UpdateRoleParams {
        guild_id: s("1"),
        role_id: s("2"),
        name: None,
        color: None,
        hoist: None,
        mentionable: None,
        permissions: Some(s("-1")),
    };
    assert_eq!(message(update_role(p)), "permissions must be a decimal number string");
    let p = UpdateRoleParams {
        guild_id: s("1"),
        role_id: s("2"),
        name: None,
        color: None,
        hoist: None,
        mentionable: None,
        permissions: Some(s("2048")),
    };
    assert_eq!(update_role(p).ok().unwrap().fields.permissions, Some(2048));
}

#[test]
fn audit_log_queries() {
    let p = GetAuditLogParams { guild_id: s("1"), user_id: Some(s("2")), action_type: Some(22), before: Some(s(" 0 ")), limit: Some(5) };
    let q = get_audit_log(&p).ok().unwrap();
    assert_eq!((q.guild_id, q.user_id, q.action_type, q.before, q.limit), (1, Some(2), Some(22), Some(0), Some(5)));
    let p = GetAuditLogParams { guild_id: s("1"), user_id: None, action_type: None, before: Some(s("soon")), limit: None };
    assert_eq!(message(get_audit_log(&p)), "Invalid ID 'soon'");
}

#[test]
fn missing_argument_messages() {
    assert_eq!(ToolError::Missing(Needed::Location).message(), "location required for external entity type");
    assert_eq!(ToolError::BadTimestamp(TimeField::End, false).message(), "Invalid scheduled_end_time");
}

fn success_text(r: ToolOutcome) -> String {
    match r {
        ToolOutcome::Success(t) => t,
        _ => panic!("expected a successful result"),
    }
}

fn failure_text(r: ToolOutcome) -> String {
    match r {
        ToolOutcome::Failure(t) => t,
        _ => panic!("expected an error result"),
    }
}

#[test]
fn entitlement_replies() {
    let data = Json::Array(vec![Json::Object(vec![(s("id"), Json::Str(s("1")))])]);
    assert_eq!(
        success_text(list_entitlements_result(RawReply::Success(Ok(data)))),
        "[\n  {\n    \"id\": \"1\"\n  }\n]"
    );
    assert_eq!(
        failure_text(list_entitlements_result(RawReply::Status(404, s("{\"message\":\"x\"}")))),
        "Discord API error (404 Not Found): {\"message\":\"x\"}"
    );
    assert_eq!(
        failure_text(list_entitlements_result(RawReply::Status(599, s("")))),
        "Discord API error (599 <unknown status code>): "
    );
    assert_eq!(
        failure_text(list_entitlements_result(RawReply::Unsent(s("timed out")))),
        "Request error: timed out"
    );
    match list_entitlements_result(RawReply::Success(Err(s("expected value")))) {
        ToolOutcome::Internal(t) => assert_eq!(t, "JSON parse error: expected value"),
        _ => panic!("expected an internal error"),
    }
}

#[test]
fn interaction_response_replies() {
    assert_eq!(success_text(create_interaction_response_result(Ok(()))), "Interaction response sent");
    assert_eq!(
        failure_text(create_interaction_response_result(Err(s("Unknown interaction")))),
        "Discord API error: Unknown interaction"
    );
}

#[test]
fn client_results() {
    assert_eq!(success_text(text_result("done")), "done");
    assert_eq!(success_text(json_result(&Json::Object(vec![]))), "{}");
    assert_eq!(success_text(json_result(&Json::Array(vec![]))), "[]");
    assert_eq!(
        success_text(json_result(&Json::Object(vec![
            (s("a"), Json::Number(s("1"))),
            (s("b"), Json::Array(vec![Json::Bool(true), Json::Null])),
            (s("c"), Json::Object(vec![])),
        ]))),
        "{\n  \"a\": 1,\n  \"b\": [\n    true,\n    null\n  ],\n  \"c\": {}\n}"
    );
    assert_eq!(failure_text(raw_error("nope")), "nope");
    assert_eq!(
        failure_text(deserialize_error("eof")),
        "Failed to deserialize Discord response: eof"
    );
    assert_eq!(failure_text(client_json_result(Err(s("403")))), "Discord API error: 403");
    assert_eq!(
        failure_text(client_json_result(Ok(Err(s("bad"))))),
        "Failed to deserialize Discord response: bad"
    );
    assert_eq!(success_text(client_json_result(Ok(Ok(Json::Str(s("q\"")))))), "\"q\\\"\"");
}

#[test]
fn soundboard_sound_requests() {
    let p = CreateGuildSoundboardSoundParams {
        guild_id: s("1"),
        name: s("boom"),
        file_path: s("/tmp/boom.ogg"),
        volume: Some(Json::Number(s("0.5"))),
        emoji_name: Some(s("💥")),
        emoji_id: None,
    };
    let (path, body) = create_guild_soundboard_sound(&p, "data:audio/ogg;base64,AA==");
    assert_eq!(path, "/guilds/1/soundboard-sounds");
    assert_eq!(
        to_json_text(&body),
        "{\"emoji_name\":\"💥\",\"name\":\"boom\",\"sound\":\"data:audio/ogg;base64,AA==\",\"volume\":0.5}"
    );
    let p = UpdateGuildSoundboardSoundParams {
        guild_id: s("1"),
        sound_id: s("2"),
        name: None,
        volume: Some(Json::Null),
        emoji_name: None,
        emoji_id: Some(s("3")),
    };
    let (path, body) = update_guild_soundboard_sound(&p);
    assert_eq!(path, "/guilds/1/soundboard-sounds/2");
    assert_eq!(to_json_text(&body), "{\"emoji_id\":\"3\",\"volume\":null}");
    assert_eq!(success_text(send_soundboard_sound_result(RawReply::Success(Ok(Json::Null)))), "Soundboard sound sent");
    assert_eq!(
        failure_text(send_soundboard_sound_result(RawReply::Status(429, s("slow down")))),
        "Discord API error (429 Too Many Requests): slow down"
    );
}

#[test]
fn uploads_as_data_uris() {
    assert_eq!(upload_mime("a/b.MP3").ok(), Some(s("audio/mpeg")));
    assert_eq!(
        message(upload_mime("notes.txt")),
        "Unsupported file format. Supported: png, jpg, gif, webp, mp3, ogg."
    );
    assert_eq!(uploaded_data_uri("image/png", Ok(b"hi".to_vec())).ok(), Some(s("data:image/png;base64,aGk=")));
    assert_eq!(
        message(uploaded_data_uri("image/png", Err(s("No such file or directory")))),
        "Failed to read file: No such file or directory"
    );
}

#[test]
fn model_replies() {
    assert_eq!(
        success_text(create_automod_rule_result(Ok(Ok(Json::Object(vec![(s("id"), Json::Str(s("9")))]))))),
        "{\n  \"id\": \"9\"\n}"
    );
    assert_eq!(
        failure_text(update_scheduled_event_result(Err(s("Missing Access")))),
        "Discord API error: Missing Access"
    );
    assert_eq!(
        failure_text(update_guild_soundboard_sound_result(RawReply::Status(400, s("bad volume")))),
        "Discord API error (400 Bad Request): bad volume"
    );
}
