use std::sync::mpsc::sync_channel;

use ecp_sender::codec::deserialize;
use ecp_sender::control::LoopState;
use ecp_sender::msg::{Command, Error, LedMsg};
use ecp_sender::sender::BMsg;
use ecp_sender::BluetoothSender;

#[test]
fn end_to_end_single_message() {
    // the producer side: a handle over the loop's two channels
    let (cmd_tx, cmd_rx) = sync_channel::<BMsg>(1);
    let (_exit_tx, exit_rx) = sync_channel::<Result<(), Error>>(1);
    let mut handle = BluetoothSender::from_parts(cmd_tx, exit_rx);

    let batch = [LedMsg {
        element: 1,
        cmd: Command::Flat(10),
        cur_time: 1000,
    }];
    handle.send(&batch).unwrap();

    // the loop side: drain the queue and process the batch as the
    // control loop would, against a stub transport MTU of 20
    let mut ls = LoopState::new(0);
    let msg = cmd_rx.try_recv().unwrap();
    let out = match msg {
        BMsg::SendMsg(msgs, _start) => ls.process_batch(&msgs, 0, 0, 20),
        _ => panic!("expected a batch"),
    };
    // exactly one push notification, decoding to exactly the batch
    assert_eq!(out.chunks.len(), 1);
    let decoded = deserialize(&out.chunks[0]).unwrap();
    assert_eq!(decoded.len(), 1);
    assert_eq!(
        decoded[0],
        LedMsg {
            element: 1,
            cmd: Command::Flat(10),
            cur_time: 1000
        }
    );
    assert_eq!(ls.last_sent, 1000);
}

#[test]
fn terminate_is_observed_after_queued_batches() {
    let (cmd_tx, cmd_rx) = sync_channel::<BMsg>(2);
    let (exit_tx, exit_rx) = sync_channel::<Result<(), Error>>(1);
    let mut handle = BluetoothSender::from_parts(cmd_tx, exit_rx);
    let batch = [LedMsg {
        element: 9,
        cmd: Command::Null,
        cur_time: 7,
    }];
    handle.send(&batch).unwrap();

    // the loop side sees the batch first, then the terminate request;
    // it reports success before dropping its end
    assert!(matches!(cmd_rx.try_recv().unwrap(), BMsg::SendMsg(..)));
    exit_tx.send(Ok(())).unwrap();
    drop(cmd_rx);
    let r = handle.terminate();
    assert_eq!(r, Ok(()));
}

#[test]
fn disconnection_surfaces_channel_error() {
    // the loop vanished: both its queue end and its exit report are gone
    let (cmd_tx, cmd_rx) = sync_channel::<BMsg>(1);
    let (exit_tx, exit_rx) = sync_channel::<Result<(), Error>>(1);
    drop(cmd_rx);
    drop(exit_tx);
    let mut handle = BluetoothSender::from_parts(cmd_tx, exit_rx);

    assert!(!handle.is_alive());
    let batch = [LedMsg {
        element: 1,
        cmd: Command::Flat(10),
        cur_time: 1000,
    }];
    let r = handle.send(&batch);
    assert_eq!(r, Err(Error::ChannelDisconnected));
    // after the failed send the exit is reaped; a second send still
    // reports the disconnection rather than hanging
    let r = handle.send(&batch);
    assert_eq!(r, Err(Error::ChannelDisconnected));
}

#[test]
fn terminate_on_vanished_loop() {
    let (cmd_tx, cmd_rx) = sync_channel::<BMsg>(1);
    let (exit_tx, exit_rx) = sync_channel::<Result<(), Error>>(1);
    drop(cmd_rx);
    drop(exit_tx);
    let handle = BluetoothSender::from_parts(cmd_tx, exit_rx);
    let r = handle.terminate();
    assert_eq!(r, Err(Error::ChannelDisconnected));
}

#[test]
fn double_terminate_is_bad_input() {
    // a handle whose loop exit was already reaped by a failed send
    let (cmd_tx, cmd_rx) = sync_channel::<BMsg>(1);
    let (exit_tx, exit_rx) = sync_channel::<Result<(), Error>>(1);
    drop(cmd_rx);
    drop(exit_tx);
    let mut handle = BluetoothSender::from_parts(cmd_tx, exit_rx);
    let batch = [LedMsg {
        element: 1,
        cmd: Command::Null,
        cur_time: 0,
    }];
    assert!(handle.send(&batch).is_err());
    let r = handle.terminate();
    assert!(matches!(r, Err(Error::BadInput(_))));
}

#[test]
fn loop_error_is_reaped_by_send() {
    // the loop exited with a fatal transport error and reported it
    let (cmd_tx, cmd_rx) = sync_channel::<BMsg>(1);
    let (exit_tx, exit_rx) = sync_channel::<Result<(), Error>>(1);
    exit_tx
        .send(Err(Error::TransportFault("bus gone".to_string())))
        .unwrap();
    drop(cmd_rx);
    drop(exit_tx);
    let mut handle = BluetoothSender::from_parts(cmd_tx, exit_rx);
    let batch = [LedMsg {
        element: 1,
        cmd: Command::Null,
        cur_time: 0,
    }];
    let r = handle.send(&batch);
    assert_eq!(r, Err(Error::TransportFault("bus gone".to_string())));
}
