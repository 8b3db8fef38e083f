use powerdna::results::{PowerDnaError, PowerDnaSuccess, StatusCodes};
use powerdna::DaqError;

fn every_error() -> Vec<PowerDnaError> {
    vec![
        PowerDnaError::IllegalEntry,
        PowerDnaError::IllegalHandle,
        PowerDnaError::SocketError,
        PowerDnaError::TimeoutError,
        PowerDnaError::SendingError,
        PowerDnaError::ReceivingError,
        PowerDnaError::IomError,
        PowerDnaError::PacketTooLong,
        PowerDnaError::IllegalPacketSize,
        PowerDnaError::InitError,
        PowerDnaError::BadParameter,
        PowerDnaError::BadDevNumber,
        PowerDnaError::NotImplemented,
        PowerDnaError::NoMemory,
        PowerDnaError::PacketFull,
        PowerDnaError::DeviceBusy,
        PowerDnaError::EventError,
        PowerDnaError::BadConfig,
        PowerDnaError::DataError,
        PowerDnaError::DeviceNotReady,
        PowerDnaError::CalibrationError,
        PowerDnaError::WrongDmap,
        PowerDnaError::DataNotAvailable,
        PowerDnaError::FifoOverflow,
        PowerDnaError::IllegalIndex,
        PowerDnaError::DioLineNotExist,
        PowerDnaError::WrongPacketCounter,
        PowerDnaError::AsyncOutReRequested,
        PowerDnaError::ProtocolMismatch,
        PowerDnaError::CmdNotAllowed,
        PowerDnaError::CmdAccessDenied,
        PowerDnaError::DeviceLocked,
        PowerDnaError::CrcCheckFailed,
    ]
}

fn every_success() -> Vec<PowerDnaSuccess> {
    vec![
        PowerDnaSuccess::NoError,
        PowerDnaSuccess::Success,
        PowerDnaSuccess::WaitEnded,
        PowerDnaSuccess::DataNotReady,
        PowerDnaSuccess::DataNotExist,
        PowerDnaSuccess::DeviceStarted,
        PowerDnaSuccess::DeviceStopped,
    ]
}

fn table() -> StatusCodes {
    let mut errors = Vec::new();
    let mut code: i32 = -1;
    for kind in every_error() {
        errors.push((code, kind));
        code -= 1;
    }
    let mut successes = Vec::new();
    let mut code: i32 = 0;
    for kind in every_success() {
        successes.push((code, kind));
        code += 1;
    }
    StatusCodes { errors, successes }
}

#[test]
fn every_listed_error_code_is_classified() {
    let codes = table();
    let mut code: i32 = -1;
    for kind in every_error() {
        assert_eq!(codes.classify(code), Err(kind));
        code -= 1;
    }
}

#[test]
fn every_listed_success_code_is_classified() {
    let codes = table();
    let mut code: i32 = 0;
    for kind in every_success() {
        assert_eq!(codes.classify(code), Ok(kind));
        code += 1;
    }
}

#[test]
fn unlisted_codes_fall_back_to_unknown() {
    let codes = table();
    assert_eq!(codes.classify(-34), Err(PowerDnaError::Unknown));
    assert_eq!(codes.classify(i32::MIN), Err(PowerDnaError::Unknown));
    assert_eq!(codes.classify(7), Ok(PowerDnaSuccess::Unknown));
    assert_eq!(codes.classify(i32::MAX), Ok(PowerDnaSuccess::Unknown));
}

#[test]
fn the_sign_decides_between_failure_and_success() {
    // a negative code listed among the successes is still a failure
    let codes = StatusCodes {
        errors: vec![(3, PowerDnaError::DeviceBusy)],
        successes: vec![(-3, PowerDnaSuccess::Success), (0, PowerDnaSuccess::NoError)],
    };
    assert_eq!(codes.classify(-3), Err(PowerDnaError::Unknown));
    assert_eq!(codes.classify(3), Ok(PowerDnaSuccess::Unknown));
    assert_eq!(codes.classify(0), Ok(PowerDnaSuccess::NoError));
}

#[test]
fn the_first_entry_for_a_code_wins() {
    let codes = StatusCodes {
        errors: vec![
            (-4, PowerDnaError::TimeoutError),
            (-4, PowerDnaError::DeviceBusy),
            (-5, PowerDnaError::SendingError),
        ],
        successes: vec![],
    };
    assert_eq!(codes.classify(-4), Err(PowerDnaError::TimeoutError));
    assert_eq!(codes.classify(-5), Err(PowerDnaError::SendingError));
}

#[test]
fn an_empty_table_knows_nothing() {
    let codes = StatusCodes { errors: vec![], successes: vec![] };
    assert_eq!(codes.classify(-1), Err(PowerDnaError::Unknown));
    assert_eq!(codes.classify(0), Ok(PowerDnaSuccess::Unknown));
}

#[test]
fn a_driver_failure_becomes_a_daq_error() {
    let error = DaqError::from(PowerDnaError::FifoOverflow);
    assert_eq!(error, DaqError::PowerDnaError { source: PowerDnaError::FifoOverflow });
    assert_eq!(error.source(), Some(PowerDnaError::FifoOverflow));
    assert_eq!(DaqError::BufferError.source(), None);
}

#[test]
fn every_daq_error_has_its_message() {
    assert_eq!(DaqError::BufferError.message(), "Failed to allocate inbound data buffer.");
    assert_eq!(
        DaqError::PowerDnaError { source: PowerDnaError::TimeoutError }.message(),
        "Internal error."
    );
    assert_eq!(DaqError::StreamStateError.message(), "Invalid state for this action.");
    assert_eq!(DaqError::ChannelConfigError.message(), "Unexpected number of channels.");
    assert_eq!(DaqError::GainConfigError.message(), "Unexpected gain value.");
}
