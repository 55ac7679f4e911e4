use ferris_bot::queue_manager::{
    QueueManager, QueueManagerJoinError, QueueManagerLeaveError, QueueSnapshot, UserType,
};
use rand::{distributions::Alphanumeric, thread_rng, Rng};
use serde_json::Value;

fn gen_random_user() -> String {
    let rng = thread_rng();

    rng.sample_iter(Alphanumeric)
        .take(6)
        .map(char::from)
        .collect()
}

/// What a manager finds when it is started again on the store that
/// `queue_man` wrote last.
fn reopened(capacity: usize, storage_file_path: &str, queue_man: &QueueManager) -> QueueManager {
    QueueManager::restore(capacity, storage_file_path, &queue_man.snapshot())
}

fn names(list: &[&str]) -> Vec<String> {
    list.iter().map(|name| name.to_string()).collect()
}

#[test]
fn test_queue() {
    let mut users = vec![];
    let mut subscribers = vec![];
    let mut queue_man = QueueManager::new(6, "storage1.json");
    for _ in 0..3 {
        let random_user = gen_random_user();
        assert!(queue_man.join(&random_user, UserType::Default).is_ok());
        // Second invocation with same user should fail.
        let result = queue_man.join(&random_user, UserType::Default);
        assert!(matches!(
            result,
            Err(QueueManagerJoinError::UserAlreadyInQueue)
        ));
        users.push(random_user);

        let random_subscriber = gen_random_user();
        assert!(queue_man
            .join(&random_subscriber, UserType::Subscriber)
            .is_ok());
        // Second invocation with same user should fail.
        let result = queue_man.join(&random_subscriber, UserType::Subscriber);
        assert!(matches!(
            result,
            Err(QueueManagerJoinError::UserAlreadyInQueue)
        ));
        subscribers.push(random_subscriber);
    }
    let random_user = gen_random_user();
    // Queue should have reached capacity by now, so any new user should fail.
    let result = queue_man.join(&random_user, UserType::Default);
    assert!(matches!(result, Err(QueueManagerJoinError::QueueFull)));

    // first in queue should be the subscribers.
    for i in 0..3 {
        assert_eq!(
            queue_man.next(),
            Some(subscribers.get(i).unwrap().to_owned())
        );
    }
    // next we should see the other users.
    for i in 0..3 {
        let mut reloaded = reopened(6, "storage1.json", &queue_man);
        assert_eq!(reloaded.next(), Some(users.get(i).unwrap().to_owned()));
        queue_man = reloaded;
    }
    let mut queue_man = reopened(6, "storage1.json", &queue_man);
    assert_eq!(queue_man.next(), None);
}

#[test]
fn test_queue_leave() {
    let capacity = 4;
    let mut queue_man = QueueManager::new(capacity, "storage2.json");

    let random_user_1 = gen_random_user();
    let random_user_2 = gen_random_user();
    let random_user_3 = gen_random_user();
    let random_user_4 = gen_random_user();
    assert!(queue_man.join(&random_user_1, UserType::Default).is_ok());
    assert!(queue_man.join(&random_user_2, UserType::Default).is_ok());
    assert!(queue_man.join(&random_user_3, UserType::Subscriber).is_ok());
    assert!(queue_man.join(&random_user_4, UserType::Default).is_ok());
    assert!(queue_man.queue().iter().any(|x| x == &random_user_1));
    assert!(queue_man.queue().iter().any(|x| x == &random_user_2));
    assert!(queue_man.queue().iter().any(|x| x == &random_user_3));
    assert!(queue_man.queue().iter().any(|x| x == &random_user_4));

    let mut queue_man = reopened(capacity, "storage2.json", &queue_man);

    assert!(queue_man.leave(&random_user_2).is_ok());
    assert!(queue_man.queue().iter().any(|x| x == &random_user_1));
    assert!(!queue_man.queue().iter().any(|x| x == &random_user_2));
    assert!(queue_man.queue().iter().any(|x| x == &random_user_3));
    assert!(queue_man.queue().iter().any(|x| x == &random_user_4));

    assert!(matches!(
        queue_man.leave(&random_user_2),
        Err(QueueManagerLeaveError::UserNotInQueue)
    ));

    assert!(queue_man.leave(&random_user_3).is_ok());
    assert!(queue_man.queue().iter().any(|x| x == &random_user_1));
    assert!(!queue_man.queue().iter().any(|x| x == &random_user_2));
    assert!(!queue_man.queue().iter().any(|x| x == &random_user_3));
    assert!(queue_man.queue().iter().any(|x| x == &random_user_4));

    assert!(matches!(
        queue_man.leave(&random_user_3),
        Err(QueueManagerLeaveError::UserNotInQueue)
    ));

    assert!(queue_man.kick(&random_user_4).is_ok());
    assert!(queue_man.queue().iter().any(|x| x == &random_user_1));
    assert!(!queue_man.queue().iter().any(|x| x == &random_user_2));
    assert!(!queue_man.queue().iter().any(|x| x == &random_user_3));
    assert!(!queue_man.queue().iter().any(|x| x == &random_user_4));

    assert!(matches!(
        queue_man.leave(&random_user_4),
        Err(QueueManagerLeaveError::UserNotInQueue)
    ));
}

#[test]
fn subscribers_are_served_before_users() {
    let mut queue_man = QueueManager::new(3, "queue.json");
    assert_eq!(queue_man.join("alice", UserType::Default), Ok(()));
    assert_eq!(queue_man.join("bob", UserType::Subscriber), Ok(()));
    assert_eq!(queue_man.join("carol", UserType::Default), Ok(()));
    assert_eq!(queue_man.queue(), names(&["bob", "alice", "carol"]));
    assert_eq!(queue_man.next(), Some("bob".to_string()));
    assert_eq!(queue_man.next(), Some("alice".to_string()));
    assert_eq!(queue_man.next(), Some("carol".to_string()));
    assert_eq!(queue_man.next(), None);
}

#[test]
fn join_at_capacity_is_refused() {
    let mut queue_man = QueueManager::new(1, "queue.json");
    assert_eq!(queue_man.join("alice", UserType::Default), Ok(()));
    assert_eq!(
        queue_man.join("bob", UserType::Default),
        Err(QueueManagerJoinError::QueueFull)
    );
    assert_eq!(queue_man.queue(), names(&["alice"]));
}

#[test]
fn join_twice_is_refused() {
    let mut queue_man = QueueManager::new(5, "queue.json");
    assert_eq!(queue_man.join("alice", UserType::Default), Ok(()));
    assert_eq!(
        queue_man.join("alice", UserType::Default),
        Err(QueueManagerJoinError::UserAlreadyInQueue)
    );
    assert_eq!(
        queue_man.join("alice", UserType::Subscriber),
        Err(QueueManagerJoinError::UserAlreadyInQueue)
    );
    assert_eq!(queue_man.queue(), names(&["alice"]));
}

#[test]
fn leave_twice_fails_the_second_time() {
    let mut queue_man = QueueManager::new(5, "queue.json");
    assert_eq!(queue_man.join("alice", UserType::Default), Ok(()));
    assert_eq!(queue_man.leave("alice"), Ok(()));
    assert_eq!(
        queue_man.leave("alice"),
        Err(QueueManagerLeaveError::UserNotInQueue)
    );
    assert!(queue_man.queue().is_empty());
}

#[test]
fn kick_twice_fails_the_second_time() {
    let mut queue_man = QueueManager::new(5, "queue.json");
    assert_eq!(queue_man.join("alice", UserType::Subscriber), Ok(()));
    assert_eq!(queue_man.kick("alice"), Ok(()));
    assert_eq!(
        queue_man.kick("alice"),
        Err(QueueManagerLeaveError::UserNotInQueue)
    );
    assert_eq!(
        queue_man.leave("alice"),
        Err(QueueManagerLeaveError::UserNotInQueue)
    );
}

#[test]
fn a_name_already_queued_is_refused_before_a_full_queue() {
    let mut queue_man = QueueManager::new(1, "queue.json");
    assert_eq!(queue_man.join("alice", UserType::Default), Ok(()));
    assert_eq!(
        queue_man.join("alice", UserType::Default),
        Err(QueueManagerJoinError::UserAlreadyInQueue)
    );
}

#[test]
fn capacity_zero_refuses_every_join() {
    let mut queue_man = QueueManager::new(0, "queue.json");
    assert_eq!(
        queue_man.join("alice", UserType::Default),
        Err(QueueManagerJoinError::QueueFull)
    );
    assert_eq!(
        queue_man.join("bob", UserType::Subscriber),
        Err(QueueManagerJoinError::QueueFull)
    );
    assert!(queue_man.queue().is_empty());
    assert_eq!(queue_man.next(), None);
}

#[test]
fn no_name_is_ever_queued_twice() {
    let mut queue_man = QueueManager::new(10, "queue.json");
    let arrivals = [
        ("ann", UserType::Default),
        ("ben", UserType::Subscriber),
        ("ann", UserType::Subscriber),
        ("cid", UserType::Default),
        ("ben", UserType::Default),
        ("ann", UserType::Default),
        ("dee", UserType::Subscriber),
        ("cid", UserType::Subscriber),
    ];
    for (name, user_type) in arrivals {
        let _ = queue_man.join(name, user_type);
        let queue = queue_man.queue();
        for (i, queued) in queue.iter().enumerate() {
            assert!(!queue[..i].contains(queued));
        }
    }
    assert_eq!(queue_man.queue(), names(&["ben", "dee", "ann", "cid"]));
}

#[test]
fn the_queue_never_outgrows_its_capacity() {
    let mut queue_man = QueueManager::new(3, "queue.json");
    let mut refused = 0;
    for (i, name) in ["a", "b", "c", "d", "e", "f"].iter().enumerate() {
        let user_type = if i % 2 == 0 { UserType::Default } else { UserType::Subscriber };
        let before = queue_man.queue();
        let result = queue_man.join(name, user_type);
        assert!(queue_man.queue().len() <= 3);
        if before.len() == 3 {
            assert_eq!(result, Err(QueueManagerJoinError::QueueFull));
            assert_eq!(queue_man.queue(), before);
            refused += 1;
        }
    }
    assert_eq!(refused, 3);
    assert_eq!(queue_man.queue(), names(&["b", "a", "c"]));
}

#[test]
fn first_come_first_served_within_a_class() {
    let mut queue_man = QueueManager::new(6, "queue.json");
    assert_eq!(queue_man.join("user1", UserType::Default), Ok(()));
    assert_eq!(queue_man.join("sub_a", UserType::Subscriber), Ok(()));
    assert_eq!(queue_man.join("user2", UserType::Default), Ok(()));
    assert_eq!(queue_man.join("sub_b", UserType::Subscriber), Ok(()));
    assert_eq!(queue_man.join("sub_c", UserType::Subscriber), Ok(()));
    let mut served = vec![];
    while let Some(name) = queue_man.next() {
        served.push(name);
    }
    assert_eq!(served, names(&["sub_a", "sub_b", "sub_c", "user1", "user2"]));
}

#[test]
fn leaving_moves_nobody_else() {
    let mut queue_man = QueueManager::new(6, "queue.json");
    for name in ["u1", "u2", "u3"] {
        assert_eq!(queue_man.join(name, UserType::Default), Ok(()));
    }
    for name in ["s1", "s2", "s3"] {
        assert_eq!(queue_man.join(name, UserType::Subscriber), Ok(()));
    }
    assert_eq!(queue_man.leave("s2"), Ok(()));
    assert_eq!(queue_man.queue(), names(&["s1", "s3", "u1", "u2", "u3"]));
    assert_eq!(queue_man.kick("u1"), Ok(()));
    assert_eq!(queue_man.queue(), names(&["s1", "s3", "u2", "u3"]));
    assert_eq!(queue_man.leave("nobody"), Err(QueueManagerLeaveError::UserNotInQueue));
    assert_eq!(queue_man.queue(), names(&["s1", "s3", "u2", "u3"]));
    // The place that was freed can be taken again, at the end of the class.
    assert_eq!(queue_man.join("s2", UserType::Subscriber), Ok(()));
    assert_eq!(queue_man.queue(), names(&["s1", "s3", "s2", "u2", "u3"]));
}

#[test]
fn next_on_an_empty_queue_changes_nothing() {
    let mut queue_man = QueueManager::new(2, "queue.json");
    assert_eq!(queue_man.next(), None);
    assert_eq!(queue_man.next(), None);
    assert_eq!(queue_man.join("alice", UserType::Default), Ok(()));
    assert_eq!(queue_man.queue(), names(&["alice"]));
}

#[test]
fn snapshot_holds_the_whole_state() {
    let mut queue_man = QueueManager::new(4, "queue.json");
    assert_eq!(queue_man.join("alice", UserType::Default), Ok(()));
    assert_eq!(queue_man.join("bob", UserType::Subscriber), Ok(()));
    assert_eq!(queue_man.join("carol", UserType::Default), Ok(()));
    let stored = queue_man.snapshot();
    assert_eq!(stored.queue_users, names(&["alice", "carol"]));
    assert_eq!(stored.queue_subscribers, names(&["bob"]));
    assert_eq!(stored.capacity, 4);
    assert_eq!(stored.storage_file_path, "queue.json");
}

#[test]
fn a_restored_manager_continues_where_the_stored_one_was() {
    let mut queue_man = QueueManager::new(3, "queue.json");
    assert_eq!(queue_man.join("alice", UserType::Default), Ok(()));
    assert_eq!(queue_man.join("bob", UserType::Subscriber), Ok(()));
    let stored = queue_man.snapshot();
    let mut restored = QueueManager::restore(stored.capacity, &stored.storage_file_path, &stored);
    assert_eq!(restored.queue(), queue_man.queue());
    assert_eq!(restored.snapshot().capacity, 3);
    assert_eq!(restored.snapshot().storage_file_path, "queue.json");
    assert_eq!(restored.join("carol", UserType::Subscriber), Ok(()));
    assert_eq!(
        restored.join("dave", UserType::Default),
        Err(QueueManagerJoinError::QueueFull)
    );
    assert_eq!(restored.queue(), names(&["bob", "carol", "alice"]));
}

#[test]
fn restore_takes_capacity_and_path_from_its_arguments() {
    let stored = QueueSnapshot {
        queue_users: names(&["alice"]),
        queue_subscribers: names(&["bob"]),
        capacity: 9,
        storage_file_path: "elsewhere.json".to_string(),
    };
    let mut restored = QueueManager::restore(2, "queue.json", &stored);
    assert_eq!(restored.queue(), names(&["bob", "alice"]));
    assert_eq!(restored.snapshot().capacity, 2);
    assert_eq!(restored.snapshot().storage_file_path, "queue.json");
    assert_eq!(
        restored.join("carol", UserType::Default),
        Err(QueueManagerJoinError::QueueFull)
    );
}

#[test]
fn a_stored_state_over_capacity_is_not_taken_over() {
    let stored = QueueSnapshot {
        queue_users: names(&["alice", "carol"]),
        queue_subscribers: names(&["bob"]),
        capacity: 3,
        storage_file_path: "queue.json".to_string(),
    };
    let mut restored = QueueManager::restore(2, "queue.json", &stored);
    assert!(restored.queue().is_empty());
    assert_eq!(restored.join("alice", UserType::Default), Ok(()));
}

#[test]
fn a_stored_state_with_a_name_twice_is_not_taken_over() {
    let twice_in_users = QueueSnapshot {
        queue_users: names(&["alice", "bob", "alice"]),
        queue_subscribers: names(&[]),
        capacity: 5,
        storage_file_path: "queue.json".to_string(),
    };
    assert!(QueueManager::restore(5, "queue.json", &twice_in_users).queue().is_empty());
    let twice_in_subscribers = QueueSnapshot {
        queue_users: names(&["carol"]),
        queue_subscribers: names(&["bob", "bob"]),
        capacity: 5,
        storage_file_path: "queue.json".to_string(),
    };
    assert!(QueueManager::restore(5, "queue.json", &twice_in_subscribers).queue().is_empty());
    let in_both_classes = QueueSnapshot {
        queue_users: names(&["alice", "bob"]),
        queue_subscribers: names(&["bob"]),
        capacity: 5,
        storage_file_path: "queue.json".to_string(),
    };
    assert!(QueueManager::restore(5, "queue.json", &in_both_classes).queue().is_empty());
}

/// The snapshot as the text of its file.
fn written(stored: &QueueSnapshot) -> String {
    let list = |names: &Vec<String>| -> Value {
        Value::Array(names.iter().map(|name| Value::String(name.clone())).collect())
    };
    let mut object = serde_json::Map::new();
    object.insert("queue_users".to_string(), list(&stored.queue_users));
    object.insert("queue_subscribers".to_string(), list(&stored.queue_subscribers));
    object.insert("capacity".to_string(), Value::from(stored.capacity as u64));
    object.insert(
        "storage_file_path".to_string(),
        Value::String(stored.storage_file_path.clone()),
    );
    serde_json::to_string(&Value::Object(object)).unwrap()
}

/// The snapshot that the text of a file holds, if it holds one.
fn read(text: &str) -> Option<QueueSnapshot> {
    let value: Value = serde_json::from_str(text).ok()?;
    let list = |value: &Value| -> Option<Vec<String>> {
        value
            .as_array()?
            .iter()
            .map(|name| name.as_str().map(|name| name.to_string()))
            .collect()
    };
    Some(QueueSnapshot {
        queue_users: list(value.get("queue_users")?)?,
        queue_subscribers: list(value.get("queue_subscribers")?)?,
        capacity: value.get("capacity")?.as_u64()? as usize,
        storage_file_path: value.get("storage_file_path")?.as_str()?.to_string(),
    })
}

#[test]
fn the_queue_survives_its_file() {
    let mut queue_man = QueueManager::new(5, "queue.json");
    for (name, user_type) in [
        ("alice", UserType::Default),
        ("b\u{f6}b \"the\" builder", UserType::Subscriber),
        ("carol", UserType::Default),
        ("dave", UserType::Subscriber),
    ] {
        assert_eq!(queue_man.join(name, user_type), Ok(()));
    }
    assert_eq!(queue_man.next(), Some("b\u{f6}b \"the\" builder".to_string()));
    let text = written(&queue_man.snapshot());
    let stored = read(&text).expect("a snapshot");
    assert_eq!(stored, queue_man.snapshot());
    let mut restored = QueueManager::restore(5, "queue.json", &stored);
    assert_eq!(restored.queue(), queue_man.queue());
    assert_eq!(restored.snapshot(), queue_man.snapshot());
    assert_eq!(restored.next(), Some("dave".to_string()));
    assert_eq!(restored.next(), Some("alice".to_string()));
    assert_eq!(restored.next(), Some("carol".to_string()));
    assert_eq!(restored.next(), None);
}

#[test]
fn a_file_without_a_snapshot_starts_an_empty_queue() {
    for text in ["", "{", "[]", "{\"queue_users\": []}", "{\"queue_users\": [1], \"queue_subscribers\": [], \"capacity\": 2, \"storage_file_path\": \"q\"}"] {
        let queue_man = match read(text) {
            Some(stored) => QueueManager::restore(2, "queue.json", &stored),
            None => QueueManager::new(2, "queue.json"),
        };
        assert!(queue_man.queue().is_empty());
        assert_eq!(queue_man.snapshot().capacity, 2);
    }
}
