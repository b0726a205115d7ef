//! Options of the client.
use iggy_core::client::{
    consumer_group_calls, new_user_status, server_address, topic_settings, with_partition,
    BuilderCall, CompressionChoice, ConsumerGroupOptions, ExpiryChoice, OptionsError, SizeChoice,
    UserStatus,
};

fn defaults() -> ConsumerGroupOptions {
    ConsumerGroupOptions {
        partition_id: None,
        polling_strategy: false,
        batch_length: None,
        auto_commit: false,
        create_consumer_group_if_not_exists: true,
        auto_join_consumer_group: true,
        poll_interval: None,
        polling_retry_interval: None,
        init_retries: None,
        init_retry_interval: None,
        allow_replay: false,
    }
}

#[test]
fn client_connects_to_the_local_server_by_default() {
    assert_eq!(server_address(None), "127.0.0.1:8090");
    assert_eq!(
        server_address(Some("10.0.0.1:1".to_string())),
        "10.0.0.1:1"
    );
}

#[test]
fn new_users_are_active_by_default() {
    assert_eq!(new_user_status(None), UserStatus::Active);
    assert_eq!(
        new_user_status(Some(UserStatus::Inactive)),
        UserStatus::Inactive
    );
}

#[test]
fn topic_options_left_out_become_defaults() {
    let settings = topic_settings(false, None, None, None);
    assert_eq!(settings.compression, CompressionChoice::Default);
    assert_eq!(settings.replication_factor, None);
    assert_eq!(settings.expiry, ExpiryChoice::ServerDefault);
    assert_eq!(settings.max_size, SizeChoice::ServerDefault);
    let settings = topic_settings(true, Some(3), Some(9), Some(0));
    assert_eq!(settings.compression, CompressionChoice::Named);
    assert_eq!(settings.replication_factor, Some(3));
    assert_eq!(settings.expiry, ExpiryChoice::Duration(9));
    assert_eq!(settings.max_size, SizeChoice::UpTo(0));
}

#[test]
fn consumer_group_defaults_create_and_join() {
    assert_eq!(
        consumer_group_calls(&defaults()),
        Ok(vec![
            BuilderCall::WithoutEncryptor,
            BuilderCall::Partition(None),
            BuilderCall::CreateGroupIfNotExists,
            BuilderCall::AutoJoinGroup,
            BuilderCall::WithoutPollInterval,
        ])
    );
}

#[test]
fn consumer_group_options_become_builder_calls() {
    let options = ConsumerGroupOptions {
        partition_id: Some(1),
        polling_strategy: true,
        batch_length: Some(2),
        auto_commit: true,
        create_consumer_group_if_not_exists: false,
        auto_join_consumer_group: false,
        poll_interval: Some(3),
        polling_retry_interval: Some(4),
        init_retries: Some(5),
        init_retry_interval: Some(6),
        allow_replay: true,
    };
    assert_eq!(
        consumer_group_calls(&options),
        Ok(vec![
            BuilderCall::WithoutEncryptor,
            BuilderCall::Partition(Some(1)),
            BuilderCall::DoNotCreateGroupIfNotExists,
            BuilderCall::DoNotAutoJoinGroup,
            BuilderCall::PollingStrategy,
            BuilderCall::BatchLength(2),
            BuilderCall::AutoCommit,
            BuilderCall::PollInterval(3),
            BuilderCall::PollingRetryInterval(4),
            BuilderCall::InitRetries(5, 6),
            BuilderCall::AllowReplay,
        ])
    );
}

#[test]
fn init_retries_come_with_their_interval() {
    let mut options = defaults();
    options.init_retries = Some(3);
    let error = consumer_group_calls(&options).expect_err("no interval");
    assert_eq!(error, OptionsError::MissingInitRetryInterval);
    assert_eq!(
        error.message(),
        "'init_retry_interval' is required if 'init_retries' is set"
    );
    let mut options = defaults();
    options.init_retry_interval = Some(3);
    let error = consumer_group_calls(&options).expect_err("no retries");
    assert_eq!(error, OptionsError::MissingInitRetries);
    assert_eq!(
        error.message(),
        "'init_retries' is required if 'init_retry_interval' is set"
    );
}

#[test]
fn polled_messages_carry_their_partition() {
    let received = with_partition(vec!["a", "b"], 7);
    assert_eq!(received.len(), 2);
    assert_eq!((received[1].inner, received[1].partition_id), ("b", 7));
}
