use forge::command::{Command, CommandDescriptor, CommandError, CommandRegistry};

fn test_descriptor() -> CommandDescriptor {
    CommandDescriptor::new("test.command", "Test command")
}

struct TestCommand;

impl Command for TestCommand {
    fn descriptor(&self) -> &'static CommandDescriptor {
        Box::leak(Box::new(test_descriptor()))
    }

    fn execute(&self) -> Result<(), CommandError> {
        Ok(())
    }
}

struct FailingCommand;

impl Command for FailingCommand {
    fn descriptor(&self) -> &'static CommandDescriptor {
        Box::leak(Box::new(CommandDescriptor::new("failing.command", "Failing command")))
    }

    fn execute(&self) -> Result<(), CommandError> {
        Err(CommandError::ExecutionFailed("boom".to_string()))
    }
}

#[test]
fn registers_command() {
    let mut registry = CommandRegistry::new();

    registry.register(TestCommand).unwrap();

    assert_eq!(registry.len(), 1);
    assert!(registry.contains("test.command"));
}

#[test]
fn rejects_duplicate_command_ids() {
    let mut registry = CommandRegistry::new();

    registry.register(TestCommand).unwrap();

    let error = registry.register(TestCommand).unwrap_err();

    assert!(matches!(
        error,
        CommandError::DuplicateCommandId {
            command_id: "test.command",
        }
    ));
}

#[test]
fn executes_registered_command() {
    let mut registry = CommandRegistry::new();

    registry.register(TestCommand).unwrap();

    assert!(registry.execute("test.command").is_ok());
}

#[test]
fn rejects_unknown_command() {
    let registry = CommandRegistry::<TestCommand>::new();

    let error = registry.execute("unknown.command").unwrap_err();

    assert!(matches!(
        error,
        CommandError::CommandNotFound { command_id }
            if command_id == "unknown.command"
    ));
}

#[test]
fn exposes_descriptors() {
    let mut registry = CommandRegistry::new();

    registry.register(TestCommand).unwrap();

    let descriptors = registry.descriptors().into_iter().collect::<Vec<_>>();

    assert_eq!(descriptors, vec![&test_descriptor()]);
}

#[test]
fn new_registry_is_empty() {
    let registry = CommandRegistry::<TestCommand>::new();
    assert!(registry.is_empty());
    assert_eq!(registry.len(), 0);
    assert!(!registry.contains("test.command"));
}

#[test]
fn get_finds_registered_command_and_reports_unknown_ones() {
    let mut registry = CommandRegistry::new();
    registry.register(TestCommand).unwrap();

    let command = registry.get("test.command").expect("command should be registered");
    assert_eq!(command.descriptor().id(), "test.command");
    assert_eq!(command.descriptor().title(), "Test command");

    assert!(matches!(
        registry.get("other.command"),
        Err(CommandError::CommandNotFound { command_id }) if command_id == "other.command"
    ));
}

#[test]
fn execute_passes_on_the_command_error() {
    let mut registry = CommandRegistry::new();
    registry.register(FailingCommand).unwrap();

    assert!(matches!(
        registry.execute("failing.command"),
        Err(CommandError::ExecutionFailed(message)) if message == "boom"
    ));
}

#[test]
fn duplicate_registration_leaves_registry_unchanged() {
    let mut registry = CommandRegistry::new();
    registry.register(TestCommand).unwrap();
    assert!(registry.register(TestCommand).is_err());
    assert_eq!(registry.len(), 1);
    assert_eq!(registry.descriptors().len(), 1);
}

#[test]
fn registers_under_the_given_name() {
    let mut registry = CommandRegistry::new();

    registry.register_as("other.name", TestCommand).unwrap();
    registry.register(TestCommand).unwrap();

    assert_eq!(registry.len(), 2);
    assert!(registry.contains("other.name"));
    assert!(registry.contains("test.command"));
    assert!(matches!(
        registry.register_as("other.name", TestCommand),
        Err(CommandError::DuplicateCommandId { command_id: "other.name" })
    ));
    assert_eq!(registry.len(), 2);
}

#[test]
fn default_registry_is_empty() {
    let registry: CommandRegistry<TestCommand> = CommandRegistry::default();
    assert!(registry.is_empty());
    assert_eq!(registry.len(), 0);
}
