use chrono::{Datelike, TimeZone, Utc};
use todo_txt::date::Date;
use todo_txt::description_component::DescriptionComponent;
use todo_txt::Task;

fn today() -> Date {
    let now = Utc::now().date_naive();
    Date::new(now.year() as u32, now.month(), now.day()).expect("today is a real date")
}

#[test]
fn can_create_task() {
    Task::new("I have something important to do!!");
}

#[test]
#[allow(deprecated)]
fn chrono_can_parse_dates() {
    let datestring = "2017-11-25 00:00:00";
    let date = match Utc.datetime_from_str(&datestring, "%Y-%m-%d %H:%M:%S") {
        Ok(converted_date) => Some(converted_date.date()),
        Err(_) => None,
    };

    assert_ne!(date, None);
}

#[test]
fn created_at_can_be_set_to_date_time() {
    let mut task = Task::new("Test");
    task.set_created_at(Some(today()));

    assert_ne!(task.created_at(), None);
}

#[test]
fn completed_at_cannot_be_set_without_created_at() {
    let mut task = Task::new("Test");
    assert_eq!(task.set_completed_at(Some(today())), false);

    assert!(task.set_created_at(Some(today())));
    assert!(task.set_completed_at(Some(today())));
}

#[test]
fn completed_at_can_be_set_to_datetime() {
    let mut task = Task::new("Test");
    assert!(task.set_created_at(Some(today())));
    assert!(task.set_completed_at(Some(today())));
}

#[test]
fn print_task_with_just_description() {
    let task = Task::new("So many things to do.");
    assert_eq!(task.to_string(), "So many things to do.");
}

#[test]
fn print_completed_task() {
    let mut task = Task::new("So many things to do.");
    task.set_completed(true);

    assert_eq!(task.to_string(), "x So many things to do.");
}

#[test]
fn print_uncompleted_task_with_priority() {
    let mut task = Task::new("So many things to do.");
    task.set_priority(Some('A'));
    assert_eq!(task.to_string(), "(A) So many things to do.");
}

#[test]
fn print_uncompleted_task_with_creation_date() {
    let mut task = Task::new("So many things to do.");
    assert_eq!(task.set_created_at_from_str("2017-11-25"), true);
    assert_eq!(task.to_string(), "2017-11-25 So many things to do.");
}

#[test]
fn print_completed_task_without_completion_date() {
    let mut task = Task::new("So many things to do.");
    task.set_created_at_from_str("2017-11-24");
    task.set_completed(true);

    assert_eq!(task.to_string(), "x 2017-11-24 So many things to do.");
}

#[test]
fn print_completed_task_with_both_dates() {
    let mut task = Task::new("So many things to do.");
    task.set_created_at_from_str("2017-11-24");
    task.set_completed_at_from_str("2017-11-25");
    task.set_completed(true);

    assert_eq!(task.to_string(), "x 2017-11-25 2017-11-24 So many things to do.");
}

#[test]
fn print_completed_task_with_both_dates_and_priority() {
    let mut task = Task::new("So many things to do.");
    task.set_created_at_from_str("2017-11-24");
    task.set_completed_at_from_str("2017-11-25");
    task.set_completed(true);
    task.set_priority(Some('B'));

    assert_eq!(
        task.to_string(),
        "x (B) 2017-11-25 2017-11-24 So many things to do."
    );
}

#[test]
fn can_set_dates_to_none_in_correct_order() {
    let mut task = Task::new("So many things to do.");
    task.set_created_at_from_str("2017-11-24");
    task.set_completed_at_from_str("2017-11-25");

    assert_ne!(task.created_at(), None);
    assert_ne!(task.completed_at(), None);

    assert!(task.set_completed_at(None));
    assert!(task.set_created_at(None));

    assert_eq!(task.created_at(), None);
    assert_eq!(task.completed_at(), None);
    assert_eq!(task.to_string(), "So many things to do.");
}

#[test]
fn can_not_reset_creation_date_if_completion_date_is_set() {
    let mut task = Task::new("So many things to do.");

    task.set_created_at_from_str("2017-11-24");
    task.set_completed_at_from_str("2017-11-25");

    assert!(!(task.set_created_at(None)));
}

#[test]
fn can_get_description_without_to_string() {
    let task = Task::new("So many things to do.");

    assert_eq!(task.description(), "So many things to do.");
}

#[test]
fn description_is_not_altered_by_other_values() {
    let mut task = Task::new("So many things to do.");
    task.set_created_at_from_str("2017-11-24");
    task.set_completed_at_from_str("2017-11-25");
    task.set_completed(true);
    task.set_priority(Some('B'));

    assert_eq!(task.description(), "So many things to do.");
}

#[test]
fn description_can_be_set() {
    let mut task = Task::new("So many things to do.");
    task.set_description("So many things to do, but I'm too lazy!");

    assert_eq!(task.description(), "So many things to do, but I'm too lazy!");
}

#[test]
fn setting_the_description_parses_tags() {
    let mut task = Task::new("");
    task.set_description("Description +project @context key:value more description.");

    assert_eq!("project", task.projects()[0]);
    assert_eq!("context", task.contexts()[0]);
    assert_eq!("value", task.options().get("key").unwrap());
}

#[test]
fn get_components_and_their_position_in_the_description() {
    let task = Task::new("Description +project @context key:value more description.");
    let components = task.description_components();

    assert_eq!(components[0], DescriptionComponent::Text(String::from("Description ")));
    assert_eq!(components[1], DescriptionComponent::Project(String::from("project")));
    assert_eq!(components[2], DescriptionComponent::Text(String::from(" ")));
    assert_eq!(components[3], DescriptionComponent::Context(String::from("context")));
    assert_eq!(components[4], DescriptionComponent::Text(String::from(" ")));
    assert_eq!(
        components[5],
        DescriptionComponent::KeyValue(String::from("key"), String::from("value"))
    );
    assert_eq!(
        components[6],
        DescriptionComponent::Text(String::from(" more description."))
    );
}
