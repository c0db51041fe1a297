// The blocking behaviors around the bus: discovery that waits for a late
// registration, built exactly as the library's wake counter prescribes —
// check under the lock, remember the counter, wait for it to move, recheck.

use std::sync::Arc;
use std::time::Duration;
use std::time::Instant;

use chatbus::bus::Bus;
use chatbus::bus::BusEntitySubscriber;
use chatbus::bus::TypedRecv;
use chatbus::envelope::BusMessageTrait;
use tokio::sync::watch;
use tokio::sync::Mutex;

fn text(s: &str) -> chatbus::envelope::BusMessageTypeEnum {
    s.to_string().as_bus_message()
}

async fn blocking_subscribe(
    bus: Arc<Mutex<Bus>>,
    wake: Arc<watch::Sender<u64>>,
    name: &str,
) -> BusEntitySubscriber {
    let mut rx = wake.subscribe();
    loop {
        {
            let mut b = bus.lock().await;
            rx.borrow_and_update();
            if let Some(s) = b.subscribe_to_entity(name) {
                return s;
            }
        }
        rx.changed().await.expect("the test owns the wake sender");
    }
}

#[test]
fn delayed_registration_completes_blocking_subscribe_after_the_delay() {
    let rt = tokio::runtime::Runtime::new().unwrap();
    rt.block_on(async {
        let bus = Arc::new(Mutex::new(Bus::new()));
        let (wake_tx, _keep) = watch::channel(0u64);
        let wake = Arc::new(wake_tx);

        let started = Instant::now();
        let waiter = tokio::spawn(blocking_subscribe(bus.clone(), wake.clone(), "B"));

        tokio::time::sleep(Duration::from_millis(50)).await;
        let entity = {
            let mut b = bus.lock().await;
            b.add_new_entity("B")
        };
        wake.send_modify(|v| *v += 1);

        let mut sub = tokio::time::timeout(Duration::from_secs(5), waiter)
            .await
            .expect("subscribe never completed")
            .unwrap();
        assert!(started.elapsed() >= Duration::from_millis(50));

        {
            let mut b = bus.lock().await;
            entity.send_to_consumer(&mut b, text("late")).unwrap();
        }
        {
            let b = bus.lock().await;
            match sub.recv_string(&b) {
                TypedRecv::Ready(s) => assert_eq!(s, "late"),
                _ => panic!("the late subscription heard nothing"),
            }
        }
    });
}

#[test]
fn concurrent_discovery_races_never_deadlock() {
    let rt = tokio::runtime::Runtime::new().unwrap();
    rt.block_on(async {
        let mut seed: u64 = 0xace1;
        for _round in 0..100 {
            seed = seed.wrapping_mul(6364136223846793005).wrapping_add(1442695040888963407);
            let delay_us = (seed >> 33) % 500;

            let bus = Arc::new(Mutex::new(Bus::new()));
            let (wake_tx, _keep) = watch::channel(0u64);
            let wake = Arc::new(wake_tx);

            let waiter = tokio::spawn(blocking_subscribe(bus.clone(), wake.clone(), "B"));

            let reg_bus = bus.clone();
            let reg_wake = wake.clone();
            let register = tokio::spawn(async move {
                tokio::time::sleep(Duration::from_micros(delay_us)).await;
                let entity = {
                    let mut b = reg_bus.lock().await;
                    b.add_new_entity("B")
                };
                reg_wake.send_modify(|v| *v += 1);
                entity
            });

            let mut sub = tokio::time::timeout(Duration::from_secs(5), waiter)
                .await
                .expect("a discovery race deadlocked")
                .unwrap();
            let entity = register.await.unwrap();

            let mut b = bus.lock().await;
            entity.send_to_consumer(&mut b, text("ping")).unwrap();
            match sub.recv_string(&b) {
                TypedRecv::Ready(s) => assert_eq!(s, "ping"),
                _ => panic!("the subscription heard nothing"),
            }
        }
    });
}
